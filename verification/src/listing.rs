//! What a list of applications holds.

use crate::cloudflare::{tunnel_status_read, TunnelStatusView};
use crate::error::{CiaoError, ErrorView};
use crate::looking::{lemma_status_only_looks, lemma_statuses};
use crate::manifest::ReleaseManifest;
use crate::model::{HostPlatform, ServiceView};
use crate::observe::{current_release_read, domain_read};
use crate::operations::{
    app_status_read, apps_after_names, apps_on, apps_question, apps_read, listed, names_in,
    opt_manifest_read, running_read, status_after_current, status_after_manifest,
    status_after_service, status_after_state, status_after_tunnel, status_on, status_with_domain,
    statuses, statuses_outcome, statuses_read, StatusResult, StatusView,
};
use crate::release::app_root;
use crate::remote::{executed, inspected, service_asked, Exchange, Log, OutputView};
use crate::running::serving_release;
use crate::sorting::{in_order, sorted_from, Keyed};
use crate::text::{bytes_before, lemma_order_of_bytes, lines};
use crate::validate::{identifier_check, lemma_identifier_is_ascii};
use vstd::prelude::*;
use vstd::utf8::{encode_utf8, is_ascii_chars};

verus! {

/// The transcript `b` begins with `a`.
pub open spec fn begun_by(a: Log, b: Log) -> bool {
    a.len() <= b.len() && b.take(a.len() as int) == a
}

/// `status` is what the question for the status of an application gave, between
/// `a` and `b`.
pub open spec fn status_given(app: Seq<char>, status: StatusView, a: Log, b: Log) -> bool {
    exists|m: Log, n: Log|
        begun_by(a, m) && begun_by(m, n) && begun_by(n, b) && #[trigger] app_status_read(
            app,
            m,
            n,
            Ok::<StatusView, ErrorView>(status),
        )
}

/// The question for the status of an application gave the error `error`, after
/// `a`, as the last thing that was asked.
pub open spec fn status_failed(app: Seq<char>, error: ErrorView, a: Log, b: Log) -> bool {
    exists|m: Log|
        begun_by(a, m) && begun_by(m, b) && #[trigger] app_status_read(
            app,
            m,
            b,
            Err::<StatusView, ErrorView>(error),
        )
}

/// `list` holds the status of each of the applications, in their order, as it
/// was given between `a` and `b`.
pub open spec fn statuses_of(
    names: Seq<Seq<char>>,
    list: Seq<StatusResult>,
    a: Log,
    b: Log,
) -> bool {
    &&& list.len() == names.len()
    &&& forall|i: int|
        0 <= i < list.len() ==> (#[trigger] list[i])@.app == names[i] && status_given(
            names[i],
            list[i]@,
            a,
            b,
        )
}

/// The host named these applications when it was asked for them.
pub open spec fn apps_named(names: Seq<Seq<char>>, a: Log, b: Log) -> bool {
    let n = a.len() as int;
    &&& n + 1 < b.len()
    &&& b[n] matches Exchange::Inspect(Ok(platform)) && b[n + 1] matches Exchange::Exec(
        command,
        Ok(output),
    ) && command == apps_question(app_root(platform.os)) && names == names_in(lines(output.stdout))
}

// ---------------------------------------------------------------------------
// The status of an application names it
// ---------------------------------------------------------------------------

proof fn lemma_named_after_state(
    app: Seq<char>,
    platform: HostPlatform,
    current: Option<Seq<char>>,
    release: Option<Seq<char>>,
    manifest: Option<ReleaseManifest>,
    status: Seq<char>,
    a: Log,
    b: Log,
    r: StatusView,
)
    requires
        status_after_state(
            app,
            platform.os,
            current,
            release,
            manifest,
            status,
            a,
            b,
            Ok::<StatusView, ErrorView>(r),
        ),
    ensures
        r.app == app,
{
    let (m, x) = choose|m: Log, x: Result<Option<TunnelStatusView>, ErrorView>|
        #[trigger] tunnel_status_read(app, a, m, x) && match x {
            Err(error) => b == m && Ok::<StatusView, ErrorView>(r) == Err::<StatusView, ErrorView>(
                error,
            ),
            Ok(tunnel) => status_after_tunnel(
                app,
                platform.os,
                current,
                release,
                manifest,
                status,
                tunnel,
                m,
                b,
                Ok::<StatusView, ErrorView>(r),
            ),
        };
    let tunnel = x->Ok_0;
    let domain = choose|domain: Result<Option<Seq<char>>, ErrorView>|
        #[trigger] domain_read(app, m, b, domain) && Ok::<StatusView, ErrorView>(r)
            == status_with_domain(
            app,
            platform.os,
            current,
            release,
            manifest,
            status,
            tunnel,
            domain,
        );
    assert(domain is Ok);
}

proof fn lemma_named_after_service(
    app: Seq<char>,
    platform: HostPlatform,
    current: Option<Seq<char>>,
    service: Option<ServiceView>,
    a: Log,
    b: Log,
    r: StatusView,
)
    requires
        status_after_service(
            app,
            platform.os,
            current,
            service,
            a,
            b,
            Ok::<StatusView, ErrorView>(r),
        ),
    ensures
        r.app == app,
{
    let os = platform.os;
    let given = Ok::<StatusView, ErrorView>(r);
    let release = serving_release(service, current);
    let (m, x) = choose|m: Log, x: Result<Option<ReleaseManifest>, ErrorView>|
        #[trigger] opt_manifest_read(app_root(os), app, release, a, m, x) && match x {
            Err(error) => b == m && given == Err::<StatusView, ErrorView>(error),
            Ok(manifest) => status_after_manifest(app, os, current, service, manifest, m, b, given),
        };
    let manifest = x->Ok_0;
    let (n, y) = choose|n: Log, y: Result<Seq<char>, ErrorView>|
        #[trigger] running_read(os, app_root(os), app, service, manifest, m, n, y) && match y {
            Err(error) => b == n && given == Err::<StatusView, ErrorView>(error),
            Ok(status) => status_after_state(
                app,
                os,
                current,
                release,
                manifest,
                status,
                n,
                b,
                given,
            ),
        };
    lemma_named_after_state(app, platform, current, release, manifest, y->Ok_0, n, b, r);
}

/// The status that an application is asked for is its own.
pub proof fn lemma_status_names_its_app(app: Seq<char>, a: Log, b: Log, r: StatusView)
    requires
        app_status_read(app, a, b, Ok::<StatusView, ErrorView>(r)),
    ensures
        r.app == app,
{
    reveal(app_status_read);
    let given = Ok::<StatusView, ErrorView>(r);
    let (m, x) = choose|m: Log, x: Result<HostPlatform, ErrorView>|
        #[trigger] inspected(a, m, x) && match x {
            Err(error) => b == m && given == Err::<StatusView, ErrorView>(error),
            Ok(platform) => status_on(app, platform, m, b, given),
        };
    let platform = x->Ok_0;
    let os = platform.os;
    let (n, y) = choose|n: Log, y: Result<Option<Seq<char>>, ErrorView>|
        #[trigger] current_release_read(app_root(os), app, m, n, y) && match y {
            Err(error) => b == n && given == Err::<StatusView, ErrorView>(error),
            Ok(current) => status_after_current(app, os, current, n, b, given),
        };
    let current = y->Ok_0;
    let (o, z) = choose|o: Log, z: Result<Option<ServiceView>, ErrorView>|
        #[trigger] service_asked(os, app_root(os), app, n, o, z) && match z {
            Err(error) => b == o && given == Err::<StatusView, ErrorView>(error),
            Ok(service) => status_after_service(app, os, current, service, o, b, given),
        };
    lemma_named_after_service(app, platform, current, z->Ok_0, o, b, r);
}

// ---------------------------------------------------------------------------
// One after the other
// ---------------------------------------------------------------------------

proof fn lemma_begun_by(a: Log, m: Log, b: Log)
    requires
        begun_by(a, m),
        begun_by(m, b),
    ensures
        begun_by(a, b),
{
    assert(b.take(a.len() as int) =~= m.take(a.len() as int));
}

proof fn lemma_statuses_of_names(
    names: Seq<Seq<char>>,
    found: Seq<StatusView>,
    a: Log,
    b: Log,
    list: Seq<StatusView>,
)
    requires
        statuses_read(names, found, a, b, Ok::<Seq<StatusView>, ErrorView>(list)),
    ensures
        list.len() == found.len() + names.len(),
        list.take(found.len() as int) == found,
        forall|i: int|
            0 <= i < names.len() ==> list[found.len() + i].app == #[trigger] names[i]
                && status_given(names[i], list[found.len() + i], a, b),
    decreases names.len(),
{
    let given = Ok::<Seq<StatusView>, ErrorView>(list);
    if names.len() == 0 {
        assert(list.take(found.len() as int) =~= found);
    } else {
        let (m, x) = choose|m: Log, x: Result<StatusView, ErrorView>|
            #[trigger] app_status_read(names[0], a, m, x) && match x {
                Err(error) => b == m && given == Err::<Seq<StatusView>, ErrorView>(error),
                Ok(status) => statuses_read(names.skip(1), found.push(status), m, b, given),
            };
        let status = x->Ok_0;
        let more = found.push(status);
        lemma_status_only_looks(names[0], a, m, x);
        lemma_statuses(names.skip(1), more, m, b, given);
        lemma_statuses_of_names(names.skip(1), more, m, b, list);
        lemma_status_names_its_app(names[0], a, m, status);
        assert(a.take(a.len() as int) =~= a);
        assert(status_given(names[0], status, a, b));
        assert(list.take(found.len() as int) =~= list.take(more.len() as int).take(
            found.len() as int,
        ));
        assert(more.take(found.len() as int) =~= found);
        assert(list[found.len() as int] == list.take(more.len() as int)[found.len() as int]);
        assert forall|i: int| 0 <= i < names.len() implies list[found.len() + i].app
            == #[trigger] names[i] && status_given(names[i], list[found.len() + i], a, b) by {
            if i > 0 {
                let one = list[found.len() + i];
                assert(names[i] == names.skip(1)[i - 1]);
                assert(one == list[more.len() + (i - 1)]);
                let (s, t) = choose|s: Log, t: Log|
                    begun_by(m, s) && begun_by(s, t) && begun_by(t, b)
                        && #[trigger] app_status_read(
                        names[i],
                        s,
                        t,
                        Ok::<StatusView, ErrorView>(one),
                    );
                lemma_begun_by(a, m, s);
            }
        }
    }
}

/// An error is that of the application whose status was asked for last.
proof fn lemma_error_of_last_name(
    names: Seq<Seq<char>>,
    found: Seq<StatusView>,
    a: Log,
    b: Log,
    error: ErrorView,
) -> (k: int)
    requires
        statuses_read(names, found, a, b, Err::<Seq<StatusView>, ErrorView>(error)),
    ensures
        0 <= k < names.len(),
        status_failed(names[k], error, a, b),
    decreases names.len(),
{
    let r = Err::<Seq<StatusView>, ErrorView>(error);
    let (m, x) = choose|m: Log, x: Result<StatusView, ErrorView>|
        #[trigger] app_status_read(names[0], a, m, x) && match x {
            Err(error) => b == m && r == Err::<Seq<StatusView>, ErrorView>(error),
            Ok(status) => statuses_read(names.skip(1), found.push(status), m, b, r),
        };
    lemma_status_only_looks(names[0], a, m, x);
    assert(a.take(a.len() as int) =~= a);
    match x {
        Err(found_error) => {
            let k = 0int;
            assert(found_error == error);
            assert(app_status_read(names[k], a, b, Err::<StatusView, ErrorView>(error)));
            k
        },
        Ok(status) => {
            let k = lemma_error_of_last_name(names.skip(1), found.push(status), m, b, error);
            let s = choose|s: Log|
                begun_by(m, s) && begun_by(s, b) && #[trigger] app_status_read(
                    names.skip(1)[k],
                    s,
                    b,
                    Err::<StatusView, ErrorView>(error),
                );
            assert(names.skip(1)[k] == names[k + 1]);
            assert(app_status_read(names[k + 1], s, b, Err::<StatusView, ErrorView>(error)));
            lemma_begun_by(a, m, s);
            k + 1
        },
    }
}

/// Where a name is no identifier, the statuses are not read to the end.
proof fn lemma_invalid_name_ends_reading(
    names: Seq<Seq<char>>,
    found: Seq<StatusView>,
    at: int,
    a: Log,
    b: Log,
    r: Result<Seq<StatusView>, ErrorView>,
)
    requires
        statuses_read(names, found, a, b, r),
        0 <= at < names.len(),
        identifier_check("app name"@, names[at]) is Err,
    ensures
        r is Err,
    decreases names.len(),
{
    let (m, x) = choose|m: Log, x: Result<StatusView, ErrorView>|
        #[trigger] app_status_read(names[0], a, m, x) && match x {
            Err(error) => b == m && r == Err::<Seq<StatusView>, ErrorView>(error),
            Ok(status) => statuses_read(names.skip(1), found.push(status), m, b, r),
        };
    if let Ok(status) = x {
        if at == 0 {
            reveal(app_status_read);
        } else {
            assert(names.skip(1)[at - 1] == names[at]);
            lemma_invalid_name_ends_reading(
                names.skip(1),
                found.push(status),
                at - 1,
                m,
                b,
                r,
            );
        }
    }
}

/// What the transcript shows of a list that the host was asked for.
proof fn lemma_names_in_transcript(
    platform: HostPlatform,
    x: Result<OutputView, ErrorView>,
    a: Log,
    m: Log,
    n: Log,
    b: Log,
    r: Result<Seq<StatusView>, ErrorView>,
)
    requires
        inspected(a, m, Ok::<HostPlatform, ErrorView>(platform)),
        executed(apps_question(app_root(platform.os)), m, n, x),
        apps_after_names(x, n, b, r),
    ensures
        x matches Ok(output) ==> apps_named(names_in(lines(output.stdout)), a, b),
        x is Ok ==> begun_by(a, n),
        forall|names: Seq<Seq<char>>| #[trigger]
            apps_named(names, a, b) ==> (x matches Ok(output) && names == names_in(
                lines(output.stdout),
            )),
{
    let at = a.len() as int;
    if let Ok(output) = x {
        lemma_statuses(names_in(lines(output.stdout)), Seq::empty(), n, b, r);
        assert(n[at] == b.take(n.len() as int)[at]);
        assert(n[at + 1] == b.take(n.len() as int)[at + 1]);
    }
    assert(n.take(at) =~= a);
    assert(n[at] == Exchange::Inspect(Ok::<HostPlatform, ErrorView>(platform)));
    assert(n[at + 1] == Exchange::Exec(apps_question(app_root(platform.os)), x));
}

// ---------------------------------------------------------------------------
// The list
// ---------------------------------------------------------------------------

/// A list of the applications holds each application that the host named, with
/// the status that the question for it gives, in the order of the names, which is
/// that of their bytes.
pub proof fn lemma_list_holds_the_named_apps(
    x: Result<Vec<StatusResult>, CiaoError>,
    sorted: Vec<StatusResult>,
    a: Log,
    b: Log,
)
    requires
        listed(x, Ok::<Vec<StatusResult>, CiaoError>(sorted)),
        apps_read(a, b, statuses_outcome(x)),
    ensures
        exists|names: Seq<Seq<char>>, list: Seq<StatusResult>|
            apps_named(names, a, b) && #[trigger] statuses_of(names, list, a, b) && sorted_from(
                list,
                sorted@,
                false,
            ),
        forall|i: int|
            0 <= i < sorted@.len() ==> status_given(
                (#[trigger] sorted@[i])@.app,
                sorted@[i]@,
                a,
                b,
            ),
        forall|i: int, j: int|
            0 <= i < j < sorted@.len() && sorted@[i].app@ != sorted@[j].app@ ==> bytes_before(
                encode_utf8(#[trigger] sorted@[i].app@),
                encode_utf8(#[trigger] sorted@[j].app@),
            ),
{
    let list = x->Ok_0;
    let r = statuses_outcome(x);
    let (m, y) = choose|m: Log, y: Result<HostPlatform, ErrorView>|
        #[trigger] inspected(a, m, y) && match y {
            Err(error) => b == m && r == Err::<Seq<StatusView>, ErrorView>(error),
            Ok(platform) => apps_on(app_root(platform.os), m, b, r),
        };
    let platform = y->Ok_0;
    let (n, z) = choose|n: Log, z: Result<OutputView, ErrorView>|
        #[trigger] executed(apps_question(app_root(platform.os)), m, n, z) && apps_after_names(
            z,
            n,
            b,
            r,
        );
    lemma_names_in_transcript(platform, z, a, m, n, b, r);
    let names = names_in(lines(z->Ok_0.stdout));
    lemma_statuses_of_names(names, Seq::empty(), n, b, statuses(list@));
    assert forall|i: int| 0 <= i < list@.len() implies (#[trigger] list@[i])@.app == names[i]
        && status_given(names[i], list@[i]@, a, b) by {
        assert(statuses(list@)[i] == list@[i]@);
        assert(status_given(names[i], list@[i]@, n, b));
        let (s, t) = choose|s: Log, t: Log|
            begun_by(n, s) && begun_by(s, t) && begun_by(t, b) && #[trigger] app_status_read(
                names[i],
                s,
                t,
                Ok::<StatusView, ErrorView>(list@[i]@),
            );
        lemma_begun_by(a, n, s);
    }
    assert(statuses_of(names, list@, a, b));
    list@.to_multiset_ensures();
    sorted@.to_multiset_ensures();
    assert forall|i: int| 0 <= i < sorted@.len() implies status_given(
        (#[trigger] sorted@[i])@.app,
        sorted@[i]@,
        a,
        b,
    ) by {
        assert(sorted@.contains(sorted@[i]));
        assert(sorted@.to_multiset().count(sorted@[i]) > 0);
        assert(list@.to_multiset() == sorted@.to_multiset());
        assert(list@.contains(sorted@[i]));
        let j = choose|j: int| 0 <= j < list@.len() && list@[j] == sorted@[i];
        assert(list@[j]@.app == names[j]);
    }
    assert forall|i: int, j: int|
        0 <= i < j < sorted@.len() && sorted@[i].app@ != sorted@[j].app@ implies bytes_before(
        encode_utf8(#[trigger] sorted@[i].app@),
        encode_utf8(#[trigger] sorted@[j].app@),
    ) by {
        assert(in_order(sorted@[i].key(), sorted@[j].key(), false));
        lemma_given_is_ascii(sorted@[i]@, a, b);
        lemma_given_is_ascii(sorted@[j]@, a, b);
        lemma_order_of_bytes(sorted@[i].app@, sorted@[j].app@);
    }
}

/// An application whose status was given has a name of ASCII characters.
proof fn lemma_given_is_ascii(status: StatusView, a: Log, b: Log)
    requires
        status_given(status.app, status, a, b),
    ensures
        is_ascii_chars(status.app),
{
    reveal(app_status_read);
    lemma_identifier_is_ascii(status.app);
}

/// Whether there is a list is decided by the names and the statuses alone. Where
/// the host named only identifiers and no question for a status failed, there is
/// one. Where it named something else, there is none, not even of the others:
/// the error is that of the name, unless a question for a status failed before.
pub proof fn lemma_when_there_is_a_list(
    names: Seq<Seq<char>>,
    x: Result<Vec<StatusResult>, CiaoError>,
    r: Result<Vec<StatusResult>, CiaoError>,
    a: Log,
    b: Log,
)
    requires
        listed(x, r),
        apps_read(a, b, statuses_outcome(x)),
        apps_named(names, a, b),
        forall|k: int, error: ErrorView|
            0 <= k < names.len() && identifier_check("app name"@, names[k]) is Ok ==> !(
            #[trigger] status_failed(names[k], error, a, b)),
    ensures
        r is Ok <==> forall|k: int|
            0 <= k < names.len() ==> identifier_check("app name"@, #[trigger] names[k]) is Ok,
        r matches Err(error) ==> exists|k: int|
            0 <= k < names.len() && Err::<(), ErrorView>(error@) == identifier_check(
                "app name"@,
                #[trigger] names[k],
            ) && error@ is InvalidIdentifier && error@->InvalidIdentifier_field == "app name"@,
{
    let given = statuses_outcome(x);
    let (m, y) = choose|m: Log, y: Result<HostPlatform, ErrorView>|
        #[trigger] inspected(a, m, y) && match y {
            Err(error) => b == m && given == Err::<Seq<StatusView>, ErrorView>(error),
            Ok(platform) => apps_on(app_root(platform.os), m, b, given),
        };
    assert(y is Ok) by {
        if y is Err {
            assert(b[a.len() as int] == Exchange::Inspect(y));
        }
    }
    let platform = y->Ok_0;
    let (n, z) = choose|n: Log, z: Result<OutputView, ErrorView>|
        #[trigger] executed(apps_question(app_root(platform.os)), m, n, z) && apps_after_names(
            z,
            n,
            b,
            given,
        );
    lemma_names_in_transcript(platform, z, a, m, n, b, given);
    if let Err(error) = given {
        let k = lemma_error_of_last_name(names, Seq::empty(), n, b, error);
        let s = choose|s: Log|
            begun_by(n, s) && begun_by(s, b) && #[trigger] app_status_read(
                names[k],
                s,
                b,
                Err::<StatusView, ErrorView>(error),
            );
        lemma_begun_by(a, n, s);
        assert(status_failed(names[k], error, a, b));
        reveal(app_status_read);
        assert(Err::<(), ErrorView>(error) == identifier_check("app name"@, names[k]));
    } else {
        assert forall|k: int| 0 <= k < names.len() implies identifier_check(
            "app name"@,
            #[trigger] names[k],
        ) is Ok by {
            if identifier_check("app name"@, names[k]) is Err {
                lemma_invalid_name_ends_reading(names, Seq::empty(), k, n, b, given);
            }
        }
    }
}

} // verus!
