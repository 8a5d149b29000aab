//! Looking at a host changes nothing: what an audit, a status and a list of
//! applications may ask, and that they ask nothing else.

use crate::audit::{
    app_audited, app_names, apps_audited, apps_finished, apps_listed, apps_then_audited,
    audit_file_read, audit_question, caddyfile_audited, caddyfile_finished, caddyfile_question,
    domain_audited, domain_file_audited, domain_route_audited, domains_audited, file_audited,
    funnel_audited, funnel_compared, funnel_looked_at, funnel_named, host_audited, listing_question,
    no_release_item, local_file_audited, local_route_audited, main_policy_audited, orphans_audited,
    orphans_finished, presence_audited, presences_audited, previews_audited, release_audited,
    rest_audited, routes_audited, service_paths, services_audited, sudo_audited, sudo_finished,
    target_name, units_audited, units_finished, AuditView, ItemView,
};
use crate::cloudflare::{
    config_question, config_read, ownership_read, owned_by, parsed_config, tunnel_after_config,
    tunnel_found, tunnel_status_read, TunnelStatusView, TunnelView,
};
use crate::domain::{fragment_built, fragment_of, local_domain_result, local_route_path};
use crate::error::{CiaoError, ErrorView};
use crate::funnel::funnel_path;
use crate::host::destination_read;
use crate::manifest::ReleaseManifest;
use crate::model::{HostOs, HostPlatform, ServiceView};
use crate::observe::{
    current_release_read, current_release_read_question, domain_read, domain_read_question,
    fragment_path, manifest_read, manifest_read_question, scheme_read, scheme_read_question,
};
use crate::operations::{
    app_status_read, apps_after_names, apps_on, apps_question, apps_read, is_static, listed,
    names_in, opt_manifest_read, running_read, shown_unit_read, slot_status_read,
    status_after_current, status_after_manifest, status_after_service, status_after_state, status_after_tunnel, status_on, statuses_read,
    statuses_outcome, StatusResult, StatusView,
};
use crate::release::{app_root, login_user};
use crate::remote::{
    executed, inspected, service_asked, CommandView, Exchange, Log, OutputView,
};
use crate::running::serving_release;
use crate::services::{slot_question, slot_read, state_question, state_read};
use crate::tailscale::{status_command, target_read, TargetView};
use crate::text::lines;
use crate::validate::identifier_check;
use vstd::prelude::*;

verus! {

// ---------------------------------------------------------------------------
// Questions
// ---------------------------------------------------------------------------

/// A command that only tests, lists or prints what is on a host.
pub open spec fn is_question(command: CommandView) -> bool {
    ||| command == config_question()
    ||| command == status_command()
    ||| exists|path: Seq<char>, stage: Seq<char>| command == #[trigger] audit_question(path, stage)
    ||| exists|os: HostOs| command == #[trigger] caddyfile_question(os)
    ||| exists|unit: bool| command == #[trigger] listing_question(unit)
    ||| exists|root: Seq<char>| command == #[trigger] apps_question(root)
    ||| exists|root: Seq<char>, app: Seq<char>| command == #[trigger] slot_question(root, app)
    ||| exists|os: HostOs, unit: Seq<char>|
        #[trigger] state_question(os, unit) == Ok::<CommandView, ErrorView>(command)
    ||| exists|app: Seq<char>| command == #[trigger] domain_read_question(app)
    ||| exists|app: Seq<char>| command == #[trigger] scheme_read_question(app)
    ||| exists|root: Seq<char>, app: Seq<char>|
        command == #[trigger] current_release_read_question(root, app)
    ||| exists|root: Seq<char>, app: Seq<char>, release: Seq<char>|
        command == #[trigger] manifest_read_question(root, app, release)
}

/// Something was asked, and nothing else was done.
pub open spec fn only_looks(e: Exchange) -> bool {
    match e {
        Exchange::Exec(command, _) => is_question(command),
        Exchange::Inspect(_) => true,
        Exchange::Destination(_) => true,
        Exchange::Service(..) => true,
        _ => false,
    }
}

/// The transcript `a` grew to `b` by questions alone.
pub open spec fn looked(a: Log, b: Log) -> bool {
    &&& a.len() <= b.len()
    &&& b.take(a.len() as int) == a
    &&& forall|i: int| a.len() <= i < b.len() ==> only_looks(#[trigger] b[i])
}

proof fn lemma_nothing(a: Log)
    ensures
        looked(a, a),
{
    assert(a.take(a.len() as int) =~= a);
}

proof fn lemma_one(a: Log, e: Exchange)
    requires
        only_looks(e),
    ensures
        looked(a, a.push(e)),
{
    assert(a.push(e).take(a.len() as int) =~= a);
}

proof fn lemma_both(a: Log, m: Log, b: Log)
    requires
        looked(a, m),
        looked(m, b),
    ensures
        looked(a, b),
{
    assert(b.take(a.len() as int) =~= m.take(a.len() as int));
    assert forall|i: int| a.len() <= i < b.len() implies only_looks(#[trigger] b[i]) by {
        if i < m.len() {
            assert(b[i] == m[i]);
        }
    }
}

// ---------------------------------------------------------------------------
// What is read of an application
// ---------------------------------------------------------------------------

proof fn lemma_current_release(
    root: Seq<char>,
    app: Seq<char>,
    a: Log,
    b: Log,
    r: Result<Option<Seq<char>>, ErrorView>,
)
    requires
        current_release_read(root, app, a, b, r),
    ensures
        looked(a, b),
{
    if b != a {
        assert(b.last()->Exec_0 == current_release_read_question(root, app));
        lemma_one(a, b.last());
    } else {
        lemma_nothing(a);
    }
}

proof fn lemma_manifest(
    root: Seq<char>,
    app: Seq<char>,
    release: Seq<char>,
    a: Log,
    b: Log,
    r: Result<ReleaseManifest, ErrorView>,
)
    requires
        manifest_read(root, app, release, a, b, r),
    ensures
        looked(a, b),
{
    if b != a {
        assert(b.last()->Exec_0 == manifest_read_question(root, app, release));
        lemma_one(a, b.last());
    } else {
        lemma_nothing(a);
    }
}

proof fn lemma_domain(
    app: Seq<char>,
    a: Log,
    b: Log,
    r: Result<Option<Seq<char>>, ErrorView>,
)
    requires
        domain_read(app, a, b, r),
    ensures
        looked(a, b),
{
    if b != a {
        assert(b.last()->Exec_0 == domain_read_question(app));
        lemma_one(a, b.last());
    } else {
        lemma_nothing(a);
    }
}

proof fn lemma_scheme(
    app: Seq<char>,
    a: Log,
    b: Log,
    r: Result<bool, ErrorView>,
)
    requires
        scheme_read(app, a, b, r),
    ensures
        looked(a, b),
{
    if b != a {
        assert(b.last()->Exec_0 == scheme_read_question(app));
        lemma_one(a, b.last());
    } else {
        lemma_nothing(a);
    }
}

proof fn lemma_slot(
    root: Seq<char>,
    app: Seq<char>,
    a: Log,
    b: Log,
    r: Result<Option<char>, ErrorView>,
)
    requires
        slot_read(root, app, a, b, r),
    ensures
        looked(a, b),
{
    assert(b.last()->Exec_0 == slot_question(root, app));
    lemma_one(a, b.last());
}

proof fn lemma_state(
    os: HostOs,
    unit: Seq<char>,
    a: Log,
    b: Log,
    r: Result<Seq<char>, ErrorView>,
)
    requires
        state_read(os, unit, a, b, r),
    ensures
        looked(a, b),
{
    match state_question(os, unit) {
        Err(_) => lemma_nothing(a),
        Ok(command) => {
            assert(b.last()->Exec_0 == command);
            lemma_one(a, b.last());
        },
    }
}

proof fn lemma_fragment(
    root: Seq<char>,
    app: Seq<char>,
    release: Seq<char>,
    domain: Seq<char>,
    plain: bool,
    a: Log,
    b: Log,
    r: Result<Seq<char>, ErrorView>,
)
    requires
        fragment_built(root, app, release, domain, plain, a, b, r),
    ensures
        looked(a, b),
{
    let (m, x) = choose|m: Log, x: Result<ReleaseManifest, ErrorView>|
        #[trigger] manifest_read(root, app, release, a, m, x) && match x {
            Err(error) => b == m && r == Err::<Seq<char>, ErrorView>(error),
            Ok(files) => if files.static_directory is Some {
                b == m && r == Ok::<Seq<char>, ErrorView>(
                    fragment_of(root, app, release, domain, plain, files, files),
                )
            } else {
                exists|again: Result<ReleaseManifest, ErrorView>|
                    #[trigger] manifest_read(root, app, release, m, b, again) && r == match again {
                        Err(error) => Err(error),
                        Ok(service) => Ok(
                            fragment_of(root, app, release, domain, plain, files, service),
                        ),
                    }
            },
        };
    lemma_manifest(root, app, release, a, m, x);
    if x is Ok && x->Ok_0.static_directory is None {
        let again = choose|again: Result<ReleaseManifest, ErrorView>|
            #[trigger] manifest_read(root, app, release, m, b, again);
        lemma_manifest(root, app, release, m, b, again);
        lemma_both(a, m, b);
    }
}

// ---------------------------------------------------------------------------
// The tunnel of an application
// ---------------------------------------------------------------------------

proof fn lemma_ownership(
    config: TunnelView,
    app: Seq<char>,
    adopt: bool,
    a: Log,
    b: Log,
    r: Result<bool, ErrorView>,
)
    requires
        ownership_read(config, app, adopt, a, b, r),
    ensures
        looked(a, b),
{
    if owned_by(config, app) || !adopt {
        lemma_nothing(a);
    } else {
        let domain = choose|domain: Result<Option<Seq<char>>, ErrorView>|
            #[trigger] domain_read(app, a, b, domain);
        lemma_domain(app, a, b, domain);
    }
}

proof fn lemma_tunnel(
    app: Seq<char>,
    adopt: bool,
    a: Log,
    b: Log,
    r: Result<Option<TunnelView>, ErrorView>,
)
    requires
        tunnel_found(app, adopt, a, b, r),
    ensures
        looked(a, b),
{
    let (m, contents) = choose|m: Log, contents: Result<Option<Seq<char>>, ErrorView>|
        #[trigger] config_read(a, m, contents) && match contents {
            Err(error) => b == m && r == Err::<Option<TunnelView>, ErrorView>(error),
            Ok(contents) => tunnel_after_config(contents, app, adopt, m, b, r),
        };
    assert(m.last()->Exec_0 == config_question());
    lemma_one(a, m.last());
    lemma_nothing(m);
    if let Ok(Some(text)) = contents {
        if let Some(config) = parsed_config(text) {
            let owned = choose|owned: Result<bool, ErrorView>|
                #[trigger] ownership_read(config, app, adopt, m, b, owned);
            lemma_ownership(config, app, adopt, m, b, owned);
        }
    }
    lemma_both(a, m, b);
}

proof fn lemma_tunnel_status(
    app: Seq<char>,
    a: Log,
    b: Log,
    r: Result<Option<TunnelStatusView>, ErrorView>,
)
    requires
        tunnel_status_read(app, a, b, r),
    ensures
        looked(a, b),
{
    let config = choose|config: Result<Option<TunnelView>, ErrorView>|
        #[trigger] tunnel_found(app, true, a, b, config);
    lemma_tunnel(app, true, a, b, config);
}

// ---------------------------------------------------------------------------
// The status of an application
// ---------------------------------------------------------------------------

proof fn lemma_opt_manifest(
    root: Seq<char>,
    app: Seq<char>,
    release: Option<Seq<char>>,
    a: Log,
    b: Log,
    r: Result<Option<ReleaseManifest>, ErrorView>,
)
    requires
        opt_manifest_read(root, app, release, a, b, r),
    ensures
        looked(a, b),
{
    match release {
        None => lemma_nothing(a),
        Some(release) => {
            let x = choose|x: Result<ReleaseManifest, ErrorView>|
                #[trigger] manifest_read(root, app, release, a, b, x);
            lemma_manifest(root, app, release, a, b, x);
        },
    }
}

proof fn lemma_running(
    os: HostOs,
    root: Seq<char>,
    app: Seq<char>,
    service: Option<ServiceView>,
    manifest: Option<ReleaseManifest>,
    a: Log,
    b: Log,
    r: Result<Seq<char>, ErrorView>,
)
    requires
        running_read(os, root, app, service, manifest, a, b, r),
    ensures
        looked(a, b),
{
    if is_static(manifest) || os is Unknown {
        lemma_nothing(a);
    } else if let Some(service) = service {
        lemma_state(os, service.unit, a, b, r);
    } else {
        assert(slot_status_read(os, root, app, a, b, r));
        let (m, unit) = choose|m: Log, unit: Seq<char>|
            #[trigger] shown_unit_read(root, app, a, m, unit) && state_read(os, unit, m, b, r);
        let x = choose|x: Result<Option<char>, ErrorView>| #[trigger] slot_read(root, app, a, m, x);
        lemma_slot(root, app, a, m, x);
        lemma_state(os, unit, m, b, r);
        lemma_both(a, m, b);
    }
}

proof fn lemma_status_after_state(
    app: Seq<char>,
    os: HostOs,
    current: Option<Seq<char>>,
    release: Option<Seq<char>>,
    manifest: Option<ReleaseManifest>,
    status: Seq<char>,
    a: Log,
    b: Log,
    r: Result<StatusView, ErrorView>,
)
    requires
        status_after_state(app, os, current, release, manifest, status, a, b, r),
    ensures
        looked(a, b),
{
    let (m, x) = choose|m: Log, x: Result<Option<TunnelStatusView>, ErrorView>|
        #[trigger] tunnel_status_read(app, a, m, x) && match x {
            Err(error) => b == m && r == Err::<StatusView, ErrorView>(error),
            Ok(tunnel) => status_after_tunnel(
                app,
                os,
                current,
                release,
                manifest,
                status,
                tunnel,
                m,
                b,
                r,
            ),
        };
    lemma_tunnel_status(app, a, m, x);
    if x is Ok {
        let domain = choose|domain: Result<Option<Seq<char>>, ErrorView>|
            #[trigger] domain_read(app, m, b, domain);
        lemma_domain(app, m, b, domain);
        lemma_both(a, m, b);
    }
}

proof fn lemma_status_after_manifest(
    app: Seq<char>,
    os: HostOs,
    current: Option<Seq<char>>,
    service: Option<ServiceView>,
    manifest: Option<ReleaseManifest>,
    a: Log,
    b: Log,
    r: Result<StatusView, ErrorView>,
)
    requires
        status_after_manifest(app, os, current, service, manifest, a, b, r),
    ensures
        looked(a, b),
{
    let release = serving_release(service, current);
    let (m, x) = choose|m: Log, x: Result<Seq<char>, ErrorView>|
        #[trigger] running_read(os, app_root(os), app, service, manifest, a, m, x) && match x {
            Err(error) => b == m && r == Err::<StatusView, ErrorView>(error),
            Ok(status) => status_after_state(app, os, current, release, manifest, status, m, b, r),
        };
    lemma_running(os, app_root(os), app, service, manifest, a, m, x);
    if let Ok(status) = x {
        lemma_status_after_state(app, os, current, release, manifest, status, m, b, r);
        lemma_both(a, m, b);
    }
}

proof fn lemma_status_after_service(
    app: Seq<char>,
    os: HostOs,
    current: Option<Seq<char>>,
    service: Option<ServiceView>,
    a: Log,
    b: Log,
    r: Result<StatusView, ErrorView>,
)
    requires
        status_after_service(app, os, current, service, a, b, r),
    ensures
        looked(a, b),
{
    let release = serving_release(service, current);
    let (m, x) = choose|m: Log, x: Result<Option<ReleaseManifest>, ErrorView>|
        #[trigger] opt_manifest_read(app_root(os), app, release, a, m, x) && match x {
            Err(error) => b == m && r == Err::<StatusView, ErrorView>(error),
            Ok(manifest) => status_after_manifest(app, os, current, service, manifest, m, b, r),
        };
    lemma_opt_manifest(app_root(os), app, release, a, m, x);
    if let Ok(manifest) = x {
        lemma_status_after_manifest(app, os, current, service, manifest, m, b, r);
        lemma_both(a, m, b);
    }
}

proof fn lemma_status_after_current(
    app: Seq<char>,
    os: HostOs,
    current: Option<Seq<char>>,
    a: Log,
    b: Log,
    r: Result<StatusView, ErrorView>,
)
    requires
        status_after_current(app, os, current, a, b, r),
    ensures
        looked(a, b),
{
    let (m, x) = choose|m: Log, x: Result<Option<ServiceView>, ErrorView>|
        #[trigger] service_asked(os, app_root(os), app, a, m, x) && match x {
            Err(error) => b == m && r == Err::<StatusView, ErrorView>(error),
            Ok(service) => status_after_service(app, os, current, service, m, b, r),
        };
    lemma_one(a, Exchange::Service(os, app_root(os), app, x));
    if let Ok(service) = x {
        lemma_status_after_service(app, os, current, service, m, b, r);
        lemma_both(a, m, b);
    }
}

proof fn lemma_status_on(
    app: Seq<char>,
    platform: HostPlatform,
    a: Log,
    b: Log,
    r: Result<StatusView, ErrorView>,
)
    requires
        status_on(app, platform, a, b, r),
    ensures
        looked(a, b),
{
    let (m, x) = choose|m: Log, x: Result<Option<Seq<char>>, ErrorView>|
        #[trigger] current_release_read(app_root(platform.os), app, a, m, x) && match x {
            Err(error) => b == m && r == Err::<StatusView, ErrorView>(error),
            Ok(current) => status_after_current(app, platform.os, current, m, b, r),
        };
    lemma_current_release(app_root(platform.os), app, a, m, x);
    if let Ok(current) = x {
        lemma_status_after_current(app, platform.os, current, m, b, r);
        lemma_both(a, m, b);
    }
}

/// To show the status of an application is to ask, and nothing else.
pub proof fn lemma_status_only_looks(
    app: Seq<char>,
    a: Log,
    b: Log,
    r: Result<StatusView, ErrorView>,
)
    requires
        app_status_read(app, a, b, r),
    ensures
        looked(a, b),
{
    reveal(app_status_read);
    if identifier_check("app name"@, app) is Err {
        lemma_nothing(a);
    } else {
        let (m, x) = choose|m: Log, x: Result<HostPlatform, ErrorView>|
            #[trigger] inspected(a, m, x) && match x {
                Err(error) => b == m && r == Err::<StatusView, ErrorView>(error),
                Ok(platform) => status_on(app, platform, m, b, r),
            };
        lemma_one(a, m.last());
        if let Ok(platform) = x {
            lemma_status_on(app, platform, m, b, r);
            lemma_both(a, m, b);
        }
    }
}

// ---------------------------------------------------------------------------
// The list of applications
// ---------------------------------------------------------------------------

pub proof fn lemma_statuses(
    names: Seq<Seq<char>>,
    found: Seq<StatusView>,
    a: Log,
    b: Log,
    r: Result<Seq<StatusView>, ErrorView>,
)
    requires
        statuses_read(names, found, a, b, r),
    ensures
        looked(a, b),
    decreases names.len(),
{
    if names.len() == 0 {
        lemma_nothing(a);
    } else {
        let (m, x) = choose|m: Log, x: Result<StatusView, ErrorView>|
            #[trigger] app_status_read(names[0], a, m, x) && match x {
                Err(error) => b == m && r == Err::<Seq<StatusView>, ErrorView>(error),
                Ok(status) => statuses_read(names.skip(1), found.push(status), m, b, r),
            };
        lemma_status_only_looks(names[0], a, m, x);
        if let Ok(status) = x {
            lemma_statuses(names.skip(1), found.push(status), m, b, r);
            lemma_both(a, m, b);
        }
    }
}

proof fn lemma_apps_on(
    root: Seq<char>,
    a: Log,
    b: Log,
    r: Result<Seq<StatusView>, ErrorView>,
)
    requires
        apps_on(root, a, b, r),
    ensures
        looked(a, b),
{
    let (m, x) = choose|m: Log, x: Result<OutputView, ErrorView>|
        #[trigger] executed(apps_question(root), a, m, x) && apps_after_names(x, m, b, r);
    assert(m.last()->Exec_0 == apps_question(root));
    lemma_one(a, m.last());
    if let Ok(output) = x {
        lemma_statuses(names_in(lines(output.stdout)), Seq::empty(), m, b, r);
        lemma_both(a, m, b);
    }
}

/// To list the applications of a host is to ask, and nothing else.
pub proof fn lemma_list_only_looks(
    a: Log,
    b: Log,
    r: Result<Seq<StatusView>, ErrorView>,
)
    requires
        apps_read(a, b, r),
    ensures
        looked(a, b),
{
    let (m, x) = choose|m: Log, x: Result<HostPlatform, ErrorView>|
        #[trigger] inspected(a, m, x) && match x {
            Err(error) => b == m && r == Err::<Seq<StatusView>, ErrorView>(error),
            Ok(platform) => apps_on(app_root(platform.os), m, b, r),
        };
    lemma_one(a, m.last());
    if let Ok(platform) = x {
        lemma_apps_on(app_root(platform.os), m, b, r);
        lemma_both(a, m, b);
    }
}

// ---------------------------------------------------------------------------
// The audit of an application
// ---------------------------------------------------------------------------

proof fn lemma_audit_file(
    path: Seq<char>,
    stage: Seq<char>,
    a: Log,
    b: Log,
    r: Result<Option<Seq<char>>, ErrorView>,
)
    requires
        audit_file_read(path, stage, a, b, r),
    ensures
        looked(a, b),
{
    assert(b.last()->Exec_0 == audit_question(path, stage));
    lemma_one(a, b.last());
}

proof fn lemma_file(
    path: Seq<char>,
    expected: Seq<char>,
    items: Seq<ItemView>,
    a: Log,
    b: Log,
    r: Result<Seq<ItemView>, ErrorView>,
)
    requires
        file_audited(path, expected, items, a, b, r),
    ensures
        looked(a, b),
{
    let (m, x) = choose|m: Log, x: Result<Option<Seq<char>>, ErrorView>|
        #[trigger] audit_file_read(path, "audit remote file"@, a, m, x) && b == m;
    lemma_audit_file(path, "audit remote file"@, a, m, x);
}

proof fn lemma_presence(
    path: Seq<char>,
    items: Seq<ItemView>,
    a: Log,
    b: Log,
    r: Result<Seq<ItemView>, ErrorView>,
)
    requires
        presence_audited(path, items, a, b, r),
    ensures
        looked(a, b),
{
    let (m, x) = choose|m: Log, x: Result<Option<Seq<char>>, ErrorView>|
        #[trigger] audit_file_read(path, "audit remote file"@, a, m, x) && b == m;
    lemma_audit_file(path, "audit remote file"@, a, m, x);
}

proof fn lemma_presences(
    paths: Seq<Seq<char>>,
    from: nat,
    items: Seq<ItemView>,
    a: Log,
    b: Log,
    r: Result<Seq<ItemView>, ErrorView>,
)
    requires
        presences_audited(paths, from, items, a, b, r),
    ensures
        looked(a, b),
    decreases paths.len() - from,
{
    if from >= paths.len() {
        lemma_nothing(a);
    } else {
        let (m, x) = choose|m: Log, x: Result<Seq<ItemView>, ErrorView>|
            #[trigger] presence_audited(paths[from as int], items, a, m, x) && match x {
                Err(error) => b == m && r == Err::<Seq<ItemView>, ErrorView>(error),
                Ok(items) => presences_audited(paths, from + 1, items, m, b, r),
            };
        lemma_presence(paths[from as int], items, a, m, x);
        if let Ok(items) = x {
            lemma_presences(paths, from + 1, items, m, b, r);
            lemma_both(a, m, b);
        }
    }
}

proof fn lemma_services(
    os: HostOs,
    app: Seq<char>,
    service: bool,
    items: Seq<ItemView>,
    a: Log,
    b: Log,
    r: Result<Seq<ItemView>, ErrorView>,
)
    requires
        services_audited(os, app, service, items, a, b, r),
    ensures
        looked(a, b),
{
    match service_paths(os, app) {
        Ok(paths) if service => lemma_presences(paths, 0, items, a, b, r),
        _ => lemma_nothing(a),
    }
}

proof fn lemma_funnel_compared(
    root: Seq<char>,
    app: Seq<char>,
    release: Seq<char>,
    hostname: Seq<char>,
    actual: Seq<char>,
    items: Seq<ItemView>,
    a: Log,
    b: Log,
    r: Result<Seq<ItemView>, ErrorView>,
)
    requires
        funnel_compared(root, app, release, hostname, actual, items, a, b, r),
    ensures
        looked(a, b),
{
    let (m, x) = choose|m: Log, x: Result<Seq<char>, ErrorView>|
        #[trigger] fragment_built(root, app, release, hostname, true, a, m, x) && b == m;
    lemma_fragment(root, app, release, hostname, true, a, m, x);
}

proof fn lemma_funnel_looked_at(
    root: Seq<char>,
    app: Seq<char>,
    release: Seq<char>,
    actual: Seq<char>,
    items: Seq<ItemView>,
    a: Log,
    b: Log,
    r: Result<Seq<ItemView>, ErrorView>,
)
    requires
        funnel_looked_at(root, app, release, actual, items, a, b, r),
    ensures
        looked(a, b),
{
    let (m, x) = choose|m: Log, x: Result<TargetView, ErrorView>|
        #[trigger] target_read(a, m, x) && funnel_named(
            root,
            app,
            release,
            actual,
            target_name(x),
            items,
            m,
            b,
            r,
        );
    assert(m.last()->Exec_0 == status_command());
    lemma_one(a, m.last());
    match target_name(x) {
        Some(name) => lemma_funnel_compared(root, app, release, name, actual, items, m, b, r),
        None => lemma_nothing(m),
    }
    lemma_both(a, m, b);
}

proof fn lemma_funnel(
    root: Seq<char>,
    app: Seq<char>,
    release: Seq<char>,
    items: Seq<ItemView>,
    a: Log,
    b: Log,
    r: Result<Seq<ItemView>, ErrorView>,
)
    requires
        funnel_audited(root, app, release, items, a, b, r),
    ensures
        looked(a, b),
{
    let (m, x) = choose|m: Log, x: Result<Option<Seq<char>>, ErrorView>|
        #[trigger] audit_file_read(funnel_path(app), "audit Funnel route"@, a, m, x) && match x {
            Err(error) => b == m && r == Err::<Seq<ItemView>, ErrorView>(error),
            Ok(None) => b == m && r == Ok::<Seq<ItemView>, ErrorView>(items),
            Ok(Some(actual)) => funnel_looked_at(root, app, release, actual, items, m, b, r),
        };
    lemma_audit_file(funnel_path(app), "audit Funnel route"@, a, m, x);
    if let Ok(Some(actual)) = x {
        lemma_funnel_looked_at(root, app, release, actual, items, m, b, r);
        lemma_both(a, m, b);
    }
}

proof fn lemma_previews(
    os: HostOs,
    root: Seq<char>,
    app: Seq<char>,
    release: Seq<char>,
    service: bool,
    items: Seq<ItemView>,
    a: Log,
    b: Log,
    r: Result<Seq<ItemView>, ErrorView>,
)
    requires
        previews_audited(os, root, app, release, service, items, a, b, r),
    ensures
        looked(a, b),
{
    let (m, x) = choose|m: Log, x: Result<Seq<ItemView>, ErrorView>|
        #[trigger] funnel_audited(root, app, release, items, a, m, x) && match x {
            Err(error) => b == m && r == Err::<Seq<ItemView>, ErrorView>(error),
            Ok(items) => services_audited(os, app, service, items, m, b, r),
        };
    lemma_funnel(root, app, release, items, a, m, x);
    if let Ok(items) = x {
        lemma_services(os, app, service, items, m, b, r);
        lemma_both(a, m, b);
    }
}

proof fn lemma_domain_file(
    os: HostOs,
    root: Seq<char>,
    app: Seq<char>,
    release: Seq<char>,
    service: bool,
    expected: Seq<char>,
    items: Seq<ItemView>,
    a: Log,
    b: Log,
    r: Result<Seq<ItemView>, ErrorView>,
)
    requires
        domain_file_audited(os, root, app, release, service, expected, items, a, b, r),
    ensures
        looked(a, b),
{
    let (m, x) = choose|m: Log, x: Result<Seq<ItemView>, ErrorView>|
        #[trigger] file_audited(fragment_path(app), expected, items, a, m, x) && match x {
            Err(error) => b == m && r == Err::<Seq<ItemView>, ErrorView>(error),
            Ok(items) => previews_audited(os, root, app, release, service, items, m, b, r),
        };
    lemma_file(fragment_path(app), expected, items, a, m, x);
    if let Ok(items) = x {
        lemma_previews(os, root, app, release, service, items, m, b, r);
        lemma_both(a, m, b);
    }
}

proof fn lemma_domain_route(
    os: HostOs,
    root: Seq<char>,
    app: Seq<char>,
    release: Seq<char>,
    service: bool,
    domain: Seq<char>,
    plain: bool,
    items: Seq<ItemView>,
    a: Log,
    b: Log,
    r: Result<Seq<ItemView>, ErrorView>,
)
    requires
        domain_route_audited(os, root, app, release, service, domain, plain, items, a, b, r),
    ensures
        looked(a, b),
{
    let (m, x) = choose|m: Log, x: Result<Seq<char>, ErrorView>|
        #[trigger] fragment_built(root, app, release, domain, plain, a, m, x) && match x {
            Err(error) => b == m && r == Err::<Seq<ItemView>, ErrorView>(error),
            Ok(expected) => domain_file_audited(
                os,
                root,
                app,
                release,
                service,
                expected,
                items,
                m,
                b,
                r,
            ),
        };
    lemma_fragment(root, app, release, domain, plain, a, m, x);
    if let Ok(expected) = x {
        lemma_domain_file(os, root, app, release, service, expected, items, m, b, r);
        lemma_both(a, m, b);
    }
}

proof fn lemma_domain_audit(
    os: HostOs,
    root: Seq<char>,
    app: Seq<char>,
    release: Seq<char>,
    service: bool,
    domain: Seq<char>,
    items: Seq<ItemView>,
    a: Log,
    b: Log,
    r: Result<Seq<ItemView>, ErrorView>,
)
    requires
        domain_audited(os, root, app, release, service, domain, items, a, b, r),
    ensures
        looked(a, b),
{
    let (m, x) = choose|m: Log, x: Result<bool, ErrorView>|
        #[trigger] scheme_read(app, a, m, x) && match x {
            Err(error) => b == m && r == Err::<Seq<ItemView>, ErrorView>(error),
            Ok(plain) => domain_route_audited(
                os,
                root,
                app,
                release,
                service,
                domain,
                plain,
                items,
                m,
                b,
                r,
            ),
        };
    lemma_scheme(app, a, m, x);
    if let Ok(plain) = x {
        lemma_domain_route(os, root, app, release, service, domain, plain, items, m, b, r);
        lemma_both(a, m, b);
    }
}

proof fn lemma_domains(
    os: HostOs,
    root: Seq<char>,
    app: Seq<char>,
    release: Seq<char>,
    service: bool,
    items: Seq<ItemView>,
    a: Log,
    b: Log,
    r: Result<Seq<ItemView>, ErrorView>,
)
    requires
        domains_audited(os, root, app, release, service, items, a, b, r),
    ensures
        looked(a, b),
{
    let (m, x) = choose|m: Log, x: Result<Option<Seq<char>>, ErrorView>|
        #[trigger] domain_read(app, a, m, x) && match x {
            Err(error) => b == m && r == Err::<Seq<ItemView>, ErrorView>(error),
            Ok(None) => previews_audited(os, root, app, release, service, items, m, b, r),
            Ok(Some(domain)) => domain_audited(
                os,
                root,
                app,
                release,
                service,
                domain,
                items,
                m,
                b,
                r,
            ),
        };
    lemma_domain(app, a, m, x);
    match x {
        Err(_) => {},
        Ok(None) => {
            lemma_previews(os, root, app, release, service, items, m, b, r);
            lemma_both(a, m, b);
        },
        Ok(Some(domain)) => {
            lemma_domain_audit(os, root, app, release, service, domain, items, m, b, r);
            lemma_both(a, m, b);
        },
    }
}

proof fn lemma_local_file(
    os: HostOs,
    root: Seq<char>,
    app: Seq<char>,
    release: Seq<char>,
    service: bool,
    expected: Seq<char>,
    items: Seq<ItemView>,
    a: Log,
    b: Log,
    r: Result<Seq<ItemView>, ErrorView>,
)
    requires
        local_file_audited(os, root, app, release, service, expected, items, a, b, r),
    ensures
        looked(a, b),
{
    let (m, x) = choose|m: Log, x: Result<Seq<ItemView>, ErrorView>|
        #[trigger] file_audited(local_route_path(app), expected, items, a, m, x) && match x {
            Err(error) => b == m && r == Err::<Seq<ItemView>, ErrorView>(error),
            Ok(items) => domains_audited(os, root, app, release, service, items, m, b, r),
        };
    lemma_file(local_route_path(app), expected, items, a, m, x);
    if let Ok(items) = x {
        lemma_domains(os, root, app, release, service, items, m, b, r);
        lemma_both(a, m, b);
    }
}

proof fn lemma_local_route(
    os: HostOs,
    root: Seq<char>,
    app: Seq<char>,
    release: Seq<char>,
    service: bool,
    domain: Seq<char>,
    items: Seq<ItemView>,
    a: Log,
    b: Log,
    r: Result<Seq<ItemView>, ErrorView>,
)
    requires
        local_route_audited(os, root, app, release, service, domain, items, a, b, r),
    ensures
        looked(a, b),
{
    let (m, x) = choose|m: Log, x: Result<Seq<char>, ErrorView>|
        #[trigger] fragment_built(root, app, release, domain, true, a, m, x) && match x {
            Err(error) => b == m && r == Err::<Seq<ItemView>, ErrorView>(error),
            Ok(expected) => local_file_audited(
                os,
                root,
                app,
                release,
                service,
                expected,
                items,
                m,
                b,
                r,
            ),
        };
    lemma_fragment(root, app, release, domain, true, a, m, x);
    if let Ok(expected) = x {
        lemma_local_file(os, root, app, release, service, expected, items, m, b, r);
        lemma_both(a, m, b);
    }
}

proof fn lemma_routes(
    os: HostOs,
    root: Seq<char>,
    app: Seq<char>,
    release: Seq<char>,
    service: bool,
    items: Seq<ItemView>,
    a: Log,
    b: Log,
    r: Result<Seq<ItemView>, ErrorView>,
)
    requires
        routes_audited(os, root, app, release, service, items, a, b, r),
    ensures
        looked(a, b),
{
    match local_domain_result(app) {
        Err(_) => lemma_nothing(a),
        Ok(domain) => lemma_local_route(
            os,
            root,
            app,
            release,
            service,
            domain,
            items,
            a,
            b,
            r,
        ),
    }
}

proof fn lemma_release(
    os: HostOs,
    root: Seq<char>,
    app: Seq<char>,
    release: Seq<char>,
    items: Seq<ItemView>,
    a: Log,
    b: Log,
    r: Result<Seq<ItemView>, ErrorView>,
)
    requires
        release_audited(os, root, app, release, items, a, b, r),
    ensures
        looked(a, b),
{
    let (m, x) = choose|m: Log, x: Result<ReleaseManifest, ErrorView>|
        #[trigger] manifest_read(root, app, release, a, m, x) && match x {
            Err(error) => b == m && r == Err::<Seq<ItemView>, ErrorView>(error),
            Ok(manifest) => routes_audited(
                os,
                root,
                app,
                release,
                manifest.app_type is Service,
                items,
                m,
                b,
                r,
            ),
        };
    lemma_manifest(root, app, release, a, m, x);
    if let Ok(manifest) = x {
        lemma_routes(os, root, app, release, manifest.app_type is Service, items, m, b, r);
        lemma_both(a, m, b);
    }
}

proof fn lemma_app(
    os: HostOs,
    root: Seq<char>,
    app: Seq<char>,
    items: Seq<ItemView>,
    a: Log,
    b: Log,
    r: Result<Seq<ItemView>, ErrorView>,
)
    requires
        app_audited(os, root, app, items, a, b, r),
    ensures
        looked(a, b),
{
    let (m, x) = choose|m: Log, x: Result<Option<Seq<char>>, ErrorView>|
        #[trigger] current_release_read(root, app, a, m, x) && match x {
            Err(error) => b == m && r == Err::<Seq<ItemView>, ErrorView>(error),
            Ok(None) => b == m && r == Ok::<Seq<ItemView>, ErrorView>(
                items.push(no_release_item(root, app)),
            ),
            Ok(Some(release)) => release_audited(os, root, app, release, items, m, b, r),
        };
    lemma_current_release(root, app, a, m, x);
    if let Ok(Some(release)) = x {
        lemma_release(os, root, app, release, items, m, b, r);
        lemma_both(a, m, b);
    }
}

proof fn lemma_apps(
    os: HostOs,
    root: Seq<char>,
    apps: Seq<Seq<char>>,
    from: nat,
    items: Seq<ItemView>,
    a: Log,
    b: Log,
    r: Result<Seq<ItemView>, ErrorView>,
)
    requires
        apps_audited(os, root, apps, from, items, a, b, r),
    ensures
        looked(a, b),
    decreases apps.len() - from,
{
    if from >= apps.len() {
        lemma_nothing(a);
    } else {
        let (m, x) = choose|m: Log, x: Result<Seq<ItemView>, ErrorView>|
            #[trigger] app_audited(os, root, apps[from as int], items, a, m, x) && match x {
                Err(error) => b == m && r == Err::<Seq<ItemView>, ErrorView>(error),
                Ok(items) => apps_audited(os, root, apps, from + 1, items, m, b, r),
            };
        lemma_app(os, root, apps[from as int], items, a, m, x);
        if let Ok(items) = x {
            lemma_apps(os, root, apps, from + 1, items, m, b, r);
            lemma_both(a, m, b);
        }
    }
}

// ---------------------------------------------------------------------------
// The audit of a host
// ---------------------------------------------------------------------------

proof fn lemma_caddyfile(
    os: HostOs,
    a: Log,
    b: Log,
    r: Result<Seq<ItemView>, ErrorView>,
)
    requires
        caddyfile_audited(os, a, b, r),
    ensures
        looked(a, b),
{
    assert(b.last()->Exec_0 == caddyfile_question(os));
    lemma_one(a, b.last());
}

proof fn lemma_main_policy(
    user: Seq<char>,
    fragment: Option<Seq<char>>,
    items: Seq<ItemView>,
    a: Log,
    b: Log,
    r: Result<Seq<ItemView>, ErrorView>,
)
    requires
        main_policy_audited(user, fragment, items, a, b, r),
    ensures
        looked(a, b),
{
    let (m, x) = choose|m: Log, x: Result<Option<Seq<char>>, ErrorView>|
        #[trigger] audit_file_read("/etc/sudoers"@, "read sudoers policy"@, a, m, x) && b == m;
    lemma_audit_file("/etc/sudoers"@, "read sudoers policy"@, a, m, x);
}

proof fn lemma_sudo(
    target: Seq<char>,
    items: Seq<ItemView>,
    a: Log,
    b: Log,
    r: Result<Seq<ItemView>, ErrorView>,
)
    requires
        sudo_audited(target, items, a, b, r),
    ensures
        looked(a, b),
{
    match login_user(target) {
        None => lemma_nothing(a),
        Some(user) => {
            let (m, x) = choose|m: Log, x: Result<Option<Seq<char>>, ErrorView>|
                #[trigger] audit_file_read(
                    "/etc/sudoers.d/ciao"@,
                    "read Ciao sudoers policy"@,
                    a,
                    m,
                    x,
                ) && match x {
                    Err(error) => b == m && r == Err::<Seq<ItemView>, ErrorView>(error),
                    Ok(fragment) => main_policy_audited(user, fragment, items, m, b, r),
                };
            lemma_audit_file("/etc/sudoers.d/ciao"@, "read Ciao sudoers policy"@, a, m, x);
            if let Ok(fragment) = x {
                lemma_main_policy(user, fragment, items, m, b, r);
                lemma_both(a, m, b);
            }
        },
    }
}

proof fn lemma_orphans(
    apps: Seq<Seq<char>>,
    unit: bool,
    items: Seq<ItemView>,
    a: Log,
    b: Log,
    r: Result<Seq<ItemView>, ErrorView>,
)
    requires
        orphans_audited(apps, unit, items, a, b, r),
    ensures
        looked(a, b),
{
    assert(b.last()->Exec_0 == listing_question(unit));
    lemma_one(a, b.last());
}

proof fn lemma_units(
    os: HostOs,
    apps: Seq<Seq<char>>,
    host: Seq<char>,
    items: Seq<ItemView>,
    a: Log,
    b: Log,
    r: Result<AuditView, ErrorView>,
)
    requires
        units_finished(os, apps, host, items, a, b, r),
    ensures
        looked(a, b),
{
    let (m, x) = choose|m: Log, x: Result<Seq<ItemView>, ErrorView>|
        #[trigger] units_audited(os, apps, items, a, m, x) && b == m;
    if os is Linux {
        lemma_orphans(apps, true, items, a, m, x);
    } else {
        lemma_nothing(a);
    }
}

proof fn lemma_orphans_finished(
    os: HostOs,
    apps: Seq<Seq<char>>,
    host: Seq<char>,
    items: Seq<ItemView>,
    a: Log,
    b: Log,
    r: Result<AuditView, ErrorView>,
)
    requires
        orphans_finished(os, apps, host, items, a, b, r),
    ensures
        looked(a, b),
{
    let (m, x) = choose|m: Log, x: Result<Seq<ItemView>, ErrorView>|
        #[trigger] orphans_audited(apps, false, items, a, m, x) && match x {
            Err(error) => b == m && r == Err::<AuditView, ErrorView>(error),
            Ok(items) => units_finished(os, apps, host, items, m, b, r),
        };
    lemma_orphans(apps, false, items, a, m, x);
    if let Ok(items) = x {
        lemma_units(os, apps, host, items, m, b, r);
        lemma_both(a, m, b);
    }
}

proof fn lemma_sudo_finished(
    os: HostOs,
    apps: Seq<Seq<char>>,
    host: Seq<char>,
    items: Seq<ItemView>,
    a: Log,
    b: Log,
    r: Result<AuditView, ErrorView>,
)
    requires
        sudo_finished(os, apps, host, items, a, b, r),
    ensures
        looked(a, b),
{
    let (m, x) = choose|m: Log, x: Result<Seq<ItemView>, ErrorView>|
        #[trigger] sudo_audited(host, items, a, m, x) && match x {
            Err(error) => b == m && r == Err::<AuditView, ErrorView>(error),
            Ok(items) => orphans_finished(os, apps, host, items, m, b, r),
        };
    lemma_sudo(host, items, a, m, x);
    if let Ok(items) = x {
        lemma_orphans_finished(os, apps, host, items, m, b, r);
        lemma_both(a, m, b);
    }
}

proof fn lemma_rest(
    os: HostOs,
    apps: Seq<Seq<char>>,
    items: Seq<ItemView>,
    a: Log,
    b: Log,
    r: Result<AuditView, ErrorView>,
)
    requires
        rest_audited(os, apps, items, a, b, r),
    ensures
        looked(a, b),
{
    let (m, target) = choose|m: Log, target: Seq<char>|
        #[trigger] destination_read(a, m, target) && sudo_finished(
            os,
            apps,
            target,
            items,
            m,
            b,
            r,
        );
    lemma_one(a, m.last());
    lemma_sudo_finished(os, apps, target, items, m, b, r);
    lemma_both(a, m, b);
}

proof fn lemma_apps_finished(
    os: HostOs,
    apps: Seq<Seq<char>>,
    items: Seq<ItemView>,
    a: Log,
    b: Log,
    r: Result<AuditView, ErrorView>,
)
    requires
        apps_finished(os, apps, items, a, b, r),
    ensures
        looked(a, b),
{
    let (m, x) = choose|m: Log, x: Result<Seq<ItemView>, ErrorView>|
        #[trigger] apps_audited(os, app_root(os), apps, 0, items, a, m, x) && match x {
            Err(error) => b == m && r == Err::<AuditView, ErrorView>(error),
            Ok(items) => rest_audited(os, apps, items, m, b, r),
        };
    lemma_apps(os, app_root(os), apps, 0, items, a, m, x);
    if let Ok(items) = x {
        lemma_rest(os, apps, items, m, b, r);
        lemma_both(a, m, b);
    }
}

proof fn lemma_caddyfile_finished(
    os: HostOs,
    apps: Seq<Seq<char>>,
    a: Log,
    b: Log,
    r: Result<AuditView, ErrorView>,
)
    requires
        caddyfile_finished(os, apps, a, b, r),
    ensures
        looked(a, b),
{
    let (m, x) = choose|m: Log, x: Result<Seq<ItemView>, ErrorView>|
        #[trigger] caddyfile_audited(os, a, m, x) && match x {
            Err(error) => b == m && r == Err::<AuditView, ErrorView>(error),
            Ok(items) => apps_finished(os, apps, items, m, b, r),
        };
    lemma_caddyfile(os, a, m, x);
    if let Ok(items) = x {
        lemma_apps_finished(os, apps, items, m, b, r);
        lemma_both(a, m, b);
    }
}

proof fn lemma_apps_then_audited(
    os: HostOs,
    a: Log,
    b: Log,
    r: Result<AuditView, ErrorView>,
)
    requires
        apps_then_audited(os, a, b, r),
    ensures
        looked(a, b),
{
    let (m, x) = choose|m: Log, x: Result<Vec<StatusResult>, CiaoError>|
        #[trigger] apps_listed(a, m, x) && match x {
            Err(error) => b == m && r == Err::<AuditView, ErrorView>(error@),
            Ok(apps) => caddyfile_finished(os, app_names(apps@), m, b, r),
        };
    let list = choose|list: Result<Vec<StatusResult>, CiaoError>|
        #[trigger] listed(list, x) && apps_read(a, m, statuses_outcome(list));
    lemma_list_only_looks(a, m, statuses_outcome(list));
    if let Ok(apps) = x {
        lemma_caddyfile_finished(os, app_names(apps@), m, b, r);
        lemma_both(a, m, b);
    }
}

/// The audit of a host is read-only: whatever the host answers, it is asked
/// questions and nothing is changed.
pub proof fn lemma_audit_only_looks(
    a: Log,
    b: Log,
    r: Result<AuditView, ErrorView>,
)
    requires
        host_audited(a, b, r),
    ensures
        looked(a, b),
{
    let (m, x) = choose|m: Log, x: Result<HostPlatform, ErrorView>|
        #[trigger] inspected(a, m, x) && match x {
            Err(error) => b == m && r == Err::<AuditView, ErrorView>(error),
            Ok(platform) => apps_then_audited(platform.os, m, b, r),
        };
    lemma_one(a, m.last());
    if let Ok(platform) = x {
        lemma_apps_then_audited(platform.os, m, b, r);
        lemma_both(a, m, b);
    }
}

} // verus!
