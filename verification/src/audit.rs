//! Drift inspection: what is on a host against what Ciao would have written.
//! Nothing is changed.

use crate::domain::{
    caddy_fragment_with_scheme, fragment_built, local_domain, local_domain_result,
    local_fragment_path, local_route_path,
};
use crate::error::{opt_text_outcome, plain_outcome, text_outcome, CiaoError, ErrorView};
use crate::funnel::{funnel_fragment_path, funnel_path};
use crate::host::destination_read;
use crate::manifest::{manifest_outcome, ReleaseManifest};
use crate::model::{AppType, HostOs, HostPlatform};
use crate::observe::{
    current_release_read, domain_fragment_path, domain_read, existing_domain_is_plain_http,
    fragment_path, manifest_read, read_current_release, read_existing_domain,
    read_release_manifest, scheme_read, MISSING_FILE,
};
use crate::operations::{apps_read, list_apps, listed, statuses_outcome, StatusResult};
use crate::release::{
    app_root, current_link, current_path, host_app_root, login_user, ssh_login_user,
};
use crate::remote::{
    executed, inspected, script_command, script_spec, successful, successful_output, CommandView,
    DeployHost, Log, OutputView, RemoteHost, Session,
};
use crate::services::{service_unit_name, slot_service_unit_name, slot_unit_result, unit_name};
use crate::shell::{shell_quote, shell_quoted};
use crate::tailscale::{tailscale_target, target_outcome, target_read, TailscaleTarget, TargetView};
use crate::text::{
    characters, contains_text, decimal, decimal_text, find_chars, find_from, lines, opt_text,
    same_text, split_on, split_text, strip_prefix, text_between, text_contains, text_lines, texts,
    trim, trim_end_matches, trim_suffixes, trimmed, without_prefix,
};
use vstd::prelude::*;

verus! {

/// One thing that was looked at.
#[derive(Debug, PartialEq, Eq)]
pub struct AuditItem {
    pub path: String,
    pub status: String,
    pub expected: Option<String>,
    pub actual: Option<String>,
}

pub struct ItemView {
    pub path: Seq<char>,
    pub status: Seq<char>,
    pub expected: Option<Seq<char>>,
    pub actual: Option<Seq<char>>,
}

impl View for AuditItem {
    type V = ItemView;

    open spec fn view(&self) -> ItemView {
        ItemView {
            path: self.path@,
            status: self.status@,
            expected: opt_text(self.expected),
            actual: opt_text(self.actual),
        }
    }
}

pub open spec fn items_view(list: Seq<AuditItem>) -> Seq<ItemView> {
    Seq::new(list.len(), |i: int| list[i]@)
}

pub open spec fn items_outcome(r: Result<Vec<AuditItem>, CiaoError>) -> Result<
    Seq<ItemView>,
    ErrorView,
> {
    match r {
        Ok(items) => Ok(items_view(items@)),
        Err(error) => Err(error@),
    }
}

fn add_item(items: Vec<AuditItem>, item: AuditItem) -> (r: Vec<AuditItem>)
    ensures
        items_view(r@) == items_view(items@).push(item@),
{
    let mut items = items;
    let ghost before = items@;
    items.push(item);
    assert(items_view(items@) =~= items_view(before).push(item@));
    items
}

fn make_item(path: &str, status: &str, expected: &str, actual: Option<&str>) -> (r: AuditItem)
    ensures
        r@ == (ItemView {
            path: path@,
            status: status@,
            expected: Some(expected@),
            actual: crate::text::opt_str(actual),
        }),
{
    AuditItem {
        path: path.to_owned(),
        status: status.to_owned(),
        expected: Some(expected.to_owned()),
        actual: crate::text::owned_opt(actual),
    }
}

// ---------------------------------------------------------------------------
// Files of the host
// ---------------------------------------------------------------------------

pub open spec fn audit_question(path: Seq<char>, stage: Seq<char>) -> CommandView {
    CommandView {
        full_output: true,
        ..script_command(
            stage,
            "set -eu\nif sudo -n test -f "@ + shell_quoted(path) + "; then sudo -n cat "@
                + shell_quoted(path) + "; else printf '__CIAO_MISSING__'; fi\n"@,
        )
    }
}

pub open spec fn audit_file_in(contents: Result<Seq<char>, ErrorView>) -> Result<
    Option<Seq<char>>,
    ErrorView,
> {
    match contents {
        Err(error) => Err(error),
        Ok(stdout) => if stdout == MISSING_FILE@ {
            Ok(None)
        } else {
            Ok(Some(stdout))
        },
    }
}

/// A file of the host was read, as it is.
pub open spec fn audit_file_read(
    path: Seq<char>,
    stage: Seq<char>,
    a: Log,
    b: Log,
    r: Result<Option<Seq<char>>, ErrorView>,
) -> bool {
    exists|x: Result<OutputView, ErrorView>|
        #[trigger] executed(audit_question(path, stage), a, b, x) && r == audit_file_in(
            successful(stage, x),
        )
}

fn read_audit_file<T: RemoteHost>(session: &mut Session<T>, path: &str, stage: &str) -> (r: Result<
    Option<String>,
    CiaoError,
>)
    ensures
        final(session).peer() == old(session).peer(),
        audit_file_read(path@, stage@, old(session)@, final(session)@, opt_text_outcome(r)),
{
    let script = "set -eu\nif sudo -n test -f ".to_owned().concat(
        shell_quote(path).as_str(),
    ).concat("; then sudo -n cat ").concat(shell_quote(path).as_str()).concat(
        "; else printf '__CIAO_MISSING__'; fi\n",
    );
    let answer = session.exec(script_spec(stage, script.as_str()).with_full_output());
    match successful_output(stage, answer) {
        Err(error) => Err(error),
        Ok(stdout) => if same_text(stdout.as_str(), MISSING_FILE) {
            Ok(None)
        } else {
            Ok(Some(stdout))
        },
    }
}

/// A file that has to have certain contents.
pub open spec fn compared_item(
    path: Seq<char>,
    expected: Seq<char>,
    actual: Option<Seq<char>>,
) -> ItemView {
    ItemView {
        path,
        status: match actual {
            None => "missing"@,
            Some(text) => if text == expected {
                "ok"@
            } else {
                "drift"@
            },
        },
        expected: Some(expected),
        actual,
    }
}

fn compare_item(path: &str, expected: String, actual: Option<String>) -> (r: AuditItem)
    ensures
        r@ == compared_item(path@, expected@, opt_text(actual)),
{
    let status = match &actual {
        None => "missing",
        Some(text) => if same_text(text.as_str(), expected.as_str()) {
            "ok"
        } else {
            "drift"
        },
    };
    AuditItem { path: path.to_owned(), status: status.to_owned(), expected: Some(expected), actual }
}

/// A file that only has to be there.
pub open spec fn presence_item(path: Seq<char>, actual: Option<Seq<char>>) -> ItemView {
    ItemView {
        path,
        status: if actual is Some {
            "ok"@
        } else {
            "missing"@
        },
        expected: Some("generated Ciao service definition"@),
        actual: if actual is Some {
            Some("present"@)
        } else {
            None
        },
    }
}

fn make_presence_item(path: &str, present: bool) -> (r: AuditItem)
    ensures
        forall|actual: Option<Seq<char>>|
            present == (actual is Some) ==> r@ == #[trigger] presence_item(path@, actual),
{
    if present {
        make_item(path, "ok", "generated Ciao service definition", Some("present"))
    } else {
        make_item(path, "missing", "generated Ciao service definition", None)
    }
}

/// A file was held against what it should contain.
pub open spec fn file_audited(
    path: Seq<char>,
    expected: Seq<char>,
    items: Seq<ItemView>,
    a: Log,
    b: Log,
    r: Result<Seq<ItemView>, ErrorView>,
) -> bool {
    exists|m: Log, x: Result<Option<Seq<char>>, ErrorView>|
        #[trigger] audit_file_read(path, "audit remote file"@, a, m, x) && match x {
            Err(error) => b == m && r == Err::<Seq<ItemView>, ErrorView>(error),
            Ok(actual) => b == m
                && r == Ok::<Seq<ItemView>, ErrorView>(
                    items.push(compared_item(path, expected, actual)),
                ),
        }
}

fn audit_remote_file<T: RemoteHost>(
    session: &mut Session<T>,
    path: &str,
    expected: String,
    items: Vec<AuditItem>,
) -> (r: Result<Vec<AuditItem>, CiaoError>)
    ensures
        final(session).peer() == old(session).peer(),
        file_audited(
            path@,
            expected@,
            items_view(items@),
            old(session)@,
            final(session)@,
            items_outcome(r),
        ),
{
    let outcome = read_audit_file(session, path, "audit remote file");
    let ghost view = opt_text_outcome(outcome);
    match outcome {
        Err(error) => {
            assert(view == Err::<Option<Seq<char>>, ErrorView>(error@));
            Err(error)
        },
        Ok(actual) => {
            assert(view == Ok::<Option<Seq<char>>, ErrorView>(opt_text(actual)));
            Ok(add_item(items, compare_item(path, expected, actual)))
        },
    }
}

/// It was looked up whether a file is there.
pub open spec fn presence_audited(
    path: Seq<char>,
    items: Seq<ItemView>,
    a: Log,
    b: Log,
    r: Result<Seq<ItemView>, ErrorView>,
) -> bool {
    exists|m: Log, x: Result<Option<Seq<char>>, ErrorView>|
        #[trigger] audit_file_read(path, "audit remote file"@, a, m, x) && match x {
            Err(error) => b == m && r == Err::<Seq<ItemView>, ErrorView>(error),
            Ok(actual) => b == m
                && r == Ok::<Seq<ItemView>, ErrorView>(items.push(presence_item(path, actual))),
        }
}

fn audit_remote_presence<T: RemoteHost>(
    session: &mut Session<T>,
    path: &str,
    items: Vec<AuditItem>,
) -> (r: Result<Vec<AuditItem>, CiaoError>)
    ensures
        final(session).peer() == old(session).peer(),
        presence_audited(
            path@,
            items_view(items@),
            old(session)@,
            final(session)@,
            items_outcome(r),
        ),
{
    let outcome = read_audit_file(session, path, "audit remote file");
    let ghost view = opt_text_outcome(outcome);
    match outcome {
        Err(error) => {
            assert(view == Err::<Option<Seq<char>>, ErrorView>(error@));
            Err(error)
        },
        Ok(actual) => {
            assert(view == Ok::<Option<Seq<char>>, ErrorView>(opt_text(actual)));
            let item = make_presence_item(path, actual.is_some());
            assert(item@ == presence_item(path@, opt_text(actual)));
            Ok(add_item(items, item))
        },
    }
}

/// Several files were looked for, from `from` on.
pub open spec fn presences_audited(
    paths: Seq<Seq<char>>,
    from: nat,
    items: Seq<ItemView>,
    a: Log,
    b: Log,
    r: Result<Seq<ItemView>, ErrorView>,
) -> bool
    decreases paths.len() - from,
{
    if from >= paths.len() {
        b == a && r == Ok::<Seq<ItemView>, ErrorView>(items)
    } else {
        exists|m: Log, x: Result<Seq<ItemView>, ErrorView>|
            #[trigger] presence_audited(paths[from as int], items, a, m, x) && match x {
                Err(error) => b == m && r == Err::<Seq<ItemView>, ErrorView>(error),
                Ok(items) => presences_audited(paths, from + 1, items, m, b, r),
            }
    }
}

fn audit_presences<T: RemoteHost>(
    session: &mut Session<T>,
    paths: &Vec<String>,
    from: usize,
    items: Vec<AuditItem>,
) -> (r: Result<Vec<AuditItem>, CiaoError>)
    requires
        from <= paths@.len(),
    ensures
        final(session).peer() == old(session).peer(),
        presences_audited(
            texts(paths@),
            from as nat,
            items_view(items@),
            old(session)@,
            final(session)@,
            items_outcome(r),
        ),
    decreases paths@.len() - from,
{
    if from == paths.len() {
        return Ok(items);
    }
    assert(texts(paths@)[from as int] == paths@[from as int]@);
    let outcome = audit_remote_presence(session, paths[from].as_str(), items);
    let ghost view = items_outcome(outcome);
    match outcome {
        Err(error) => {
            assert(view == Err::<Seq<ItemView>, ErrorView>(error@));
            Err(error)
        },
        Ok(items) => {
            assert(view == Ok::<Seq<ItemView>, ErrorView>(items_view(items@)));
            audit_presences(session, paths, from + 1, items)
        },
    }
}

// ---------------------------------------------------------------------------
// One application
// ---------------------------------------------------------------------------

/// The service definitions that an application has.
pub open spec fn service_paths(os: HostOs, app: Seq<char>) -> Result<Seq<Seq<char>>, ErrorView> {
    match os {
        HostOs::Linux => match slot_unit_result(app, 'a') {
            Err(error) => Err(error),
            Ok(first) => match slot_unit_result(app, 'b') {
                Err(error) => Err(error),
                Ok(second) => Ok(
                    seq![
                        "/etc/systemd/system/"@ + unit_name(app, false),
                        "/etc/systemd/system/"@ + first,
                        "/etc/systemd/system/"@ + second,
                    ],
                ),
            },
        },
        HostOs::MacOs => Ok(seq!["/Library/LaunchDaemons/dev.ciao."@ + app + ".plist"@]),
        HostOs::Unknown(_) => Ok(Seq::empty()),
    }
}

pub open spec fn paths_outcome(r: Result<Vec<String>, CiaoError>) -> Result<
    Seq<Seq<char>>,
    ErrorView,
> {
    match r {
        Ok(list) => Ok(texts(list@)),
        Err(error) => Err(error@),
    }
}

fn find_service_paths(os: &HostOs, app: &str) -> (r: Result<Vec<String>, CiaoError>)
    ensures
        paths_outcome(r) == service_paths(*os, app@),
{
    let mut list: Vec<String> = Vec::new();
    match os {
        HostOs::Linux => {
            let first = slot_service_unit_name(app, 'a')?;
            let second = slot_service_unit_name(app, 'b')?;
            list.push(
                "/etc/systemd/system/".to_owned().concat(service_unit_name(app, false).as_str()),
            );
            list.push("/etc/systemd/system/".to_owned().concat(first.as_str()));
            list.push("/etc/systemd/system/".to_owned().concat(second.as_str()));
        },
        HostOs::MacOs => {
            list.push("/Library/LaunchDaemons/dev.ciao.".to_owned().concat(app).concat(".plist"));
        },
        HostOs::Unknown(_) => {},
    }
    assert(texts(list@) =~= service_paths(*os, app@)->Ok_0);
    Ok(list)
}

/// The service definitions of an application were looked for.
pub open spec fn services_audited(
    os: HostOs,
    app: Seq<char>,
    service: bool,
    items: Seq<ItemView>,
    a: Log,
    b: Log,
    r: Result<Seq<ItemView>, ErrorView>,
) -> bool {
    if !service {
        b == a && r == Ok::<Seq<ItemView>, ErrorView>(items)
    } else {
        match service_paths(os, app) {
            Err(error) => b == a && r == Err::<Seq<ItemView>, ErrorView>(error),
            Ok(paths) => presences_audited(paths, 0, items, a, b, r),
        }
    }
}

fn audit_services<T: RemoteHost>(
    session: &mut Session<T>,
    os: &HostOs,
    app: &str,
    service: bool,
    items: Vec<AuditItem>,
) -> (r: Result<Vec<AuditItem>, CiaoError>)
    ensures
        final(session).peer() == old(session).peer(),
        services_audited(
            *os,
            app@,
            service,
            items_view(items@),
            old(session)@,
            final(session)@,
            items_outcome(r),
        ),
{
    if !service {
        return Ok(items);
    }
    let paths = find_service_paths(os, app);
    let ghost view = paths_outcome(paths);
    match paths {
        Err(error) => {
            assert(view == Err::<Seq<Seq<char>>, ErrorView>(error@));
            Err(error)
        },
        Ok(paths) => {
            assert(view == Ok::<Seq<Seq<char>>, ErrorView>(texts(paths@)));
            audit_presences(session, &paths, 0, items)
        },
    }
}

/// A preview route whose contents cannot be told.
pub open spec fn funnel_present(app: Seq<char>) -> ItemView {
    ItemView {
        path: funnel_path(app),
        status: "ok"@,
        expected: Some("managed Tailscale Funnel route"@),
        actual: Some("present"@),
    }
}

/// A preview route was held against what it should contain.
pub open spec fn funnel_compared(
    root: Seq<char>,
    app: Seq<char>,
    release: Seq<char>,
    hostname: Seq<char>,
    actual: Seq<char>,
    items: Seq<ItemView>,
    a: Log,
    b: Log,
    r: Result<Seq<ItemView>, ErrorView>,
) -> bool {
    exists|m: Log, x: Result<Seq<char>, ErrorView>|
        #[trigger] fragment_built(root, app, release, hostname, true, a, m, x) && match x {
            Err(error) => b == m && r == Err::<Seq<ItemView>, ErrorView>(error),
            Ok(expected) => b == m
                && r == Ok::<Seq<ItemView>, ErrorView>(
                    items.push(compared_item(funnel_path(app), expected, Some(actual))),
                ),
        }
}

fn compare_funnel<T: RemoteHost>(
    session: &mut Session<T>,
    root: &str,
    app: &str,
    release: &str,
    hostname: &str,
    actual: String,
    items: Vec<AuditItem>,
) -> (r: Result<Vec<AuditItem>, CiaoError>)
    ensures
        final(session).peer() == old(session).peer(),
        funnel_compared(
            root@,
            app@,
            release@,
            hostname@,
            actual@,
            items_view(items@),
            old(session)@,
            final(session)@,
            items_outcome(r),
        ),
{
    let outcome = caddy_fragment_with_scheme(session, root, app, release, hostname, true);
    let ghost view = text_outcome(outcome);
    match outcome {
        Err(error) => {
            assert(view == Err::<Seq<char>, ErrorView>(error@));
            Err(error)
        },
        Ok(expected) => {
            assert(view == Ok::<Seq<char>, ErrorView>(expected@));
            let path = funnel_fragment_path(app);
            Ok(add_item(items, compare_item(path.as_str(), expected, Some(actual))))
        },
    }
}

pub open spec fn funnel_named(
    root: Seq<char>,
    app: Seq<char>,
    release: Seq<char>,
    actual: Seq<char>,
    hostname: Option<Seq<char>>,
    items: Seq<ItemView>,
    a: Log,
    b: Log,
    r: Result<Seq<ItemView>, ErrorView>,
) -> bool {
    match hostname {
        Some(name) => funnel_compared(root, app, release, name, actual, items, a, b, r),
        None => b == a && r == Ok::<Seq<ItemView>, ErrorView>(items.push(funnel_present(app))),
    }
}

pub open spec fn target_name(x: Result<TargetView, ErrorView>) -> Option<Seq<char>> {
    match x {
        Ok(target) => target.hostname,
        Err(_) => None,
    }
}

fn name_of_target(x: Result<TailscaleTarget, CiaoError>) -> (r: Option<String>)
    ensures
        opt_text(r) == target_name(target_outcome(x)),
{
    match x {
        Ok(target) => target.hostname,
        Err(_) => None,
    }
}

fn audit_named_funnel<T: RemoteHost>(
    session: &mut Session<T>,
    root: &str,
    app: &str,
    release: &str,
    actual: String,
    hostname: Option<String>,
    items: Vec<AuditItem>,
) -> (r: Result<Vec<AuditItem>, CiaoError>)
    ensures
        final(session).peer() == old(session).peer(),
        funnel_named(
            root@,
            app@,
            release@,
            actual@,
            opt_text(hostname),
            items_view(items@),
            old(session)@,
            final(session)@,
            items_outcome(r),
        ),
{
    match hostname {
        Some(name) => compare_funnel(session, root, app, release, name.as_str(), actual, items),
        None => {
            let path = funnel_fragment_path(app);
            let item = make_item(
                path.as_str(),
                "ok",
                "managed Tailscale Funnel route",
                Some("present"),
            );
            assert(item@ == funnel_present(app@));
            Ok(add_item(items, item))
        },
    }
}

/// A preview route that is there was looked at.
pub open spec fn funnel_looked_at(
    root: Seq<char>,
    app: Seq<char>,
    release: Seq<char>,
    actual: Seq<char>,
    items: Seq<ItemView>,
    a: Log,
    b: Log,
    r: Result<Seq<ItemView>, ErrorView>,
) -> bool {
    exists|m: Log, x: Result<TargetView, ErrorView>|
        #[trigger] target_read(a, m, x) && funnel_named(
            root,
            app,
            release,
            actual,
            target_name(x),
            items,
            m,
            b,
            r,
        )
}

fn look_at_funnel<T: RemoteHost>(
    session: &mut Session<T>,
    root: &str,
    app: &str,
    release: &str,
    actual: String,
    items: Vec<AuditItem>,
) -> (r: Result<Vec<AuditItem>, CiaoError>)
    ensures
        final(session).peer() == old(session).peer(),
        funnel_looked_at(
            root@,
            app@,
            release@,
            actual@,
            items_view(items@),
            old(session)@,
            final(session)@,
            items_outcome(r),
        ),
{
    let target = tailscale_target(session);
    let hostname = name_of_target(target);
    audit_named_funnel(session, root, app, release, actual, hostname, items)
}

/// The preview route of an application was audited, where it has one.
pub open spec fn funnel_audited(
    root: Seq<char>,
    app: Seq<char>,
    release: Seq<char>,
    items: Seq<ItemView>,
    a: Log,
    b: Log,
    r: Result<Seq<ItemView>, ErrorView>,
) -> bool {
    exists|m: Log, x: Result<Option<Seq<char>>, ErrorView>|
        #[trigger] audit_file_read(funnel_path(app), "audit Funnel route"@, a, m, x) && match x {
            Err(error) => b == m && r == Err::<Seq<ItemView>, ErrorView>(error),
            Ok(None) => b == m && r == Ok::<Seq<ItemView>, ErrorView>(items),
            Ok(Some(actual)) => funnel_looked_at(root, app, release, actual, items, m, b, r),
        }
}

fn audit_funnel<T: RemoteHost>(
    session: &mut Session<T>,
    root: &str,
    app: &str,
    release: &str,
    items: Vec<AuditItem>,
) -> (r: Result<Vec<AuditItem>, CiaoError>)
    ensures
        final(session).peer() == old(session).peer(),
        funnel_audited(
            root@,
            app@,
            release@,
            items_view(items@),
            old(session)@,
            final(session)@,
            items_outcome(r),
        ),
{
    let path = funnel_fragment_path(app);
    let outcome = read_audit_file(session, path.as_str(), "audit Funnel route");
    let ghost view = opt_text_outcome(outcome);
    match outcome {
        Err(error) => {
            assert(view == Err::<Option<Seq<char>>, ErrorView>(error@));
            Err(error)
        },
        Ok(None) => {
            assert(view == Ok::<Option<Seq<char>>, ErrorView>(None));
            Ok(items)
        },
        Ok(Some(actual)) => {
            assert(view == Ok::<Option<Seq<char>>, ErrorView>(Some(actual@)));
            look_at_funnel(session, root, app, release, actual, items)
        },
    }
}

/// The preview route and the services of an application were audited.
pub open spec fn previews_audited(
    os: HostOs,
    root: Seq<char>,
    app: Seq<char>,
    release: Seq<char>,
    service: bool,
    items: Seq<ItemView>,
    a: Log,
    b: Log,
    r: Result<Seq<ItemView>, ErrorView>,
) -> bool {
    exists|m: Log, x: Result<Seq<ItemView>, ErrorView>|
        #[trigger] funnel_audited(root, app, release, items, a, m, x) && match x {
            Err(error) => b == m && r == Err::<Seq<ItemView>, ErrorView>(error),
            Ok(items) => services_audited(os, app, service, items, m, b, r),
        }
}

fn audit_previews<T: RemoteHost>(
    session: &mut Session<T>,
    os: &HostOs,
    root: &str,
    app: &str,
    release: &str,
    service: bool,
    items: Vec<AuditItem>,
) -> (r: Result<Vec<AuditItem>, CiaoError>)
    ensures
        final(session).peer() == old(session).peer(),
        previews_audited(
            *os,
            root@,
            app@,
            release@,
            service,
            items_view(items@),
            old(session)@,
            final(session)@,
            items_outcome(r),
        ),
{
    let outcome = audit_funnel(session, root, app, release, items);
    let ghost view = items_outcome(outcome);
    match outcome {
        Err(error) => {
            assert(view == Err::<Seq<ItemView>, ErrorView>(error@));
            Err(error)
        },
        Ok(items) => {
            assert(view == Ok::<Seq<ItemView>, ErrorView>(items_view(items@)));
            audit_services(session, os, app, service, items)
        },
    }
}

pub open spec fn domain_file_audited(
    os: HostOs,
    root: Seq<char>,
    app: Seq<char>,
    release: Seq<char>,
    service: bool,
    expected: Seq<char>,
    items: Seq<ItemView>,
    a: Log,
    b: Log,
    r: Result<Seq<ItemView>, ErrorView>,
) -> bool {
    exists|m: Log, x: Result<Seq<ItemView>, ErrorView>|
        #[trigger] file_audited(fragment_path(app), expected, items, a, m, x) && match x {
            Err(error) => b == m && r == Err::<Seq<ItemView>, ErrorView>(error),
            Ok(items) => previews_audited(os, root, app, release, service, items, m, b, r),
        }
}

fn audit_domain_file<T: RemoteHost>(
    session: &mut Session<T>,
    os: &HostOs,
    root: &str,
    app: &str,
    release: &str,
    service: bool,
    expected: String,
    items: Vec<AuditItem>,
) -> (r: Result<Vec<AuditItem>, CiaoError>)
    ensures
        final(session).peer() == old(session).peer(),
        domain_file_audited(
            *os,
            root@,
            app@,
            release@,
            service,
            expected@,
            items_view(items@),
            old(session)@,
            final(session)@,
            items_outcome(r),
        ),
{
    let path = domain_fragment_path(app);
    let outcome = audit_remote_file(session, path.as_str(), expected, items);
    let ghost view = items_outcome(outcome);
    match outcome {
        Err(error) => {
            assert(view == Err::<Seq<ItemView>, ErrorView>(error@));
            Err(error)
        },
        Ok(items) => {
            assert(view == Ok::<Seq<ItemView>, ErrorView>(items_view(items@)));
            audit_previews(session, os, root, app, release, service, items)
        },
    }
}

pub open spec fn domain_route_audited(
    os: HostOs,
    root: Seq<char>,
    app: Seq<char>,
    release: Seq<char>,
    service: bool,
    domain: Seq<char>,
    plain: bool,
    items: Seq<ItemView>,
    a: Log,
    b: Log,
    r: Result<Seq<ItemView>, ErrorView>,
) -> bool {
    exists|m: Log, x: Result<Seq<char>, ErrorView>|
        #[trigger] fragment_built(root, app, release, domain, plain, a, m, x) && match x {
            Err(error) => b == m && r == Err::<Seq<ItemView>, ErrorView>(error),
            Ok(expected) => domain_file_audited(
                os,
                root,
                app,
                release,
                service,
                expected,
                items,
                m,
                b,
                r,
            ),
        }
}

fn audit_domain_route<T: RemoteHost>(
    session: &mut Session<T>,
    os: &HostOs,
    root: &str,
    app: &str,
    release: &str,
    service: bool,
    domain: &str,
    plain: bool,
    items: Vec<AuditItem>,
) -> (r: Result<Vec<AuditItem>, CiaoError>)
    ensures
        final(session).peer() == old(session).peer(),
        domain_route_audited(
            *os,
            root@,
            app@,
            release@,
            service,
            domain@,
            plain,
            items_view(items@),
            old(session)@,
            final(session)@,
            items_outcome(r),
        ),
{
    let outcome = caddy_fragment_with_scheme(session, root, app, release, domain, plain);
    let ghost view = text_outcome(outcome);
    match outcome {
        Err(error) => {
            assert(view == Err::<Seq<char>, ErrorView>(error@));
            Err(error)
        },
        Ok(expected) => {
            assert(view == Ok::<Seq<char>, ErrorView>(expected@));
            audit_domain_file(session, os, root, app, release, service, expected, items)
        },
    }
}

/// The route of a public domain was audited.
pub open spec fn domain_audited(
    os: HostOs,
    root: Seq<char>,
    app: Seq<char>,
    release: Seq<char>,
    service: bool,
    domain: Seq<char>,
    items: Seq<ItemView>,
    a: Log,
    b: Log,
    r: Result<Seq<ItemView>, ErrorView>,
) -> bool {
    exists|m: Log, x: Result<bool, ErrorView>|
        #[trigger] scheme_read(app, a, m, x) && match x {
            Err(error) => b == m && r == Err::<Seq<ItemView>, ErrorView>(error),
            Ok(plain) => domain_route_audited(
                os,
                root,
                app,
                release,
                service,
                domain,
                plain,
                items,
                m,
                b,
                r,
            ),
        }
}

fn audit_domain<T: RemoteHost>(
    session: &mut Session<T>,
    os: &HostOs,
    root: &str,
    app: &str,
    release: &str,
    service: bool,
    domain: &str,
    items: Vec<AuditItem>,
) -> (r: Result<Vec<AuditItem>, CiaoError>)
    ensures
        final(session).peer() == old(session).peer(),
        domain_audited(
            *os,
            root@,
            app@,
            release@,
            service,
            domain@,
            items_view(items@),
            old(session)@,
            final(session)@,
            items_outcome(r),
        ),
{
    let outcome = existing_domain_is_plain_http(session, app);
    let ghost view = plain_outcome(outcome);
    match outcome {
        Err(error) => {
            assert(view == Err::<bool, ErrorView>(error@));
            Err(error)
        },
        Ok(plain) => {
            assert(view == Ok::<bool, ErrorView>(plain));
            audit_domain_route(session, os, root, app, release, service, domain, plain, items)
        },
    }
}

/// The public domain of an application was audited, where it has one.
pub open spec fn domains_audited(
    os: HostOs,
    root: Seq<char>,
    app: Seq<char>,
    release: Seq<char>,
    service: bool,
    items: Seq<ItemView>,
    a: Log,
    b: Log,
    r: Result<Seq<ItemView>, ErrorView>,
) -> bool {
    exists|m: Log, x: Result<Option<Seq<char>>, ErrorView>|
        #[trigger] domain_read(app, a, m, x) && match x {
            Err(error) => b == m && r == Err::<Seq<ItemView>, ErrorView>(error),
            Ok(None) => previews_audited(os, root, app, release, service, items, m, b, r),
            Ok(Some(domain)) => domain_audited(
                os,
                root,
                app,
                release,
                service,
                domain,
                items,
                m,
                b,
                r,
            ),
        }
}

fn audit_domains<T: RemoteHost>(
    session: &mut Session<T>,
    os: &HostOs,
    root: &str,
    app: &str,
    release: &str,
    service: bool,
    items: Vec<AuditItem>,
) -> (r: Result<Vec<AuditItem>, CiaoError>)
    ensures
        final(session).peer() == old(session).peer(),
        domains_audited(
            *os,
            root@,
            app@,
            release@,
            service,
            items_view(items@),
            old(session)@,
            final(session)@,
            items_outcome(r),
        ),
{
    let outcome = read_existing_domain(session, app);
    let ghost view = opt_text_outcome(outcome);
    match outcome {
        Err(error) => {
            assert(view == Err::<Option<Seq<char>>, ErrorView>(error@));
            Err(error)
        },
        Ok(None) => {
            assert(view == Ok::<Option<Seq<char>>, ErrorView>(None));
            audit_previews(session, os, root, app, release, service, items)
        },
        Ok(Some(domain)) => {
            assert(view == Ok::<Option<Seq<char>>, ErrorView>(Some(domain@)));
            audit_domain(session, os, root, app, release, service, domain.as_str(), items)
        },
    }
}

pub open spec fn local_file_audited(
    os: HostOs,
    root: Seq<char>,
    app: Seq<char>,
    release: Seq<char>,
    service: bool,
    expected: Seq<char>,
    items: Seq<ItemView>,
    a: Log,
    b: Log,
    r: Result<Seq<ItemView>, ErrorView>,
) -> bool {
    exists|m: Log, x: Result<Seq<ItemView>, ErrorView>|
        #[trigger] file_audited(local_route_path(app), expected, items, a, m, x) && match x {
            Err(error) => b == m && r == Err::<Seq<ItemView>, ErrorView>(error),
            Ok(items) => domains_audited(os, root, app, release, service, items, m, b, r),
        }
}

fn audit_local_file<T: RemoteHost>(
    session: &mut Session<T>,
    os: &HostOs,
    root: &str,
    app: &str,
    release: &str,
    service: bool,
    expected: String,
    items: Vec<AuditItem>,
) -> (r: Result<Vec<AuditItem>, CiaoError>)
    ensures
        final(session).peer() == old(session).peer(),
        local_file_audited(
            *os,
            root@,
            app@,
            release@,
            service,
            expected@,
            items_view(items@),
            old(session)@,
            final(session)@,
            items_outcome(r),
        ),
{
    let path = local_fragment_path(app);
    let outcome = audit_remote_file(session, path.as_str(), expected, items);
    let ghost view = items_outcome(outcome);
    match outcome {
        Err(error) => {
            assert(view == Err::<Seq<ItemView>, ErrorView>(error@));
            Err(error)
        },
        Ok(items) => {
            assert(view == Ok::<Seq<ItemView>, ErrorView>(items_view(items@)));
            audit_domains(session, os, root, app, release, service, items)
        },
    }
}

/// The route of the `.ciao` domain was audited.
pub open spec fn local_route_audited(
    os: HostOs,
    root: Seq<char>,
    app: Seq<char>,
    release: Seq<char>,
    service: bool,
    domain: Seq<char>,
    items: Seq<ItemView>,
    a: Log,
    b: Log,
    r: Result<Seq<ItemView>, ErrorView>,
) -> bool {
    exists|m: Log, x: Result<Seq<char>, ErrorView>|
        #[trigger] fragment_built(root, app, release, domain, true, a, m, x) && match x {
            Err(error) => b == m && r == Err::<Seq<ItemView>, ErrorView>(error),
            Ok(expected) => local_file_audited(
                os,
                root,
                app,
                release,
                service,
                expected,
                items,
                m,
                b,
                r,
            ),
        }
}

fn audit_local_route<T: RemoteHost>(
    session: &mut Session<T>,
    os: &HostOs,
    root: &str,
    app: &str,
    release: &str,
    service: bool,
    domain: &str,
    items: Vec<AuditItem>,
) -> (r: Result<Vec<AuditItem>, CiaoError>)
    ensures
        final(session).peer() == old(session).peer(),
        local_route_audited(
            *os,
            root@,
            app@,
            release@,
            service,
            domain@,
            items_view(items@),
            old(session)@,
            final(session)@,
            items_outcome(r),
        ),
{
    let outcome = caddy_fragment_with_scheme(session, root, app, release, domain, true);
    let ghost view = text_outcome(outcome);
    match outcome {
        Err(error) => {
            assert(view == Err::<Seq<char>, ErrorView>(error@));
            Err(error)
        },
        Ok(expected) => {
            assert(view == Ok::<Seq<char>, ErrorView>(expected@));
            audit_local_file(session, os, root, app, release, service, expected, items)
        },
    }
}

pub open spec fn routes_audited(
    os: HostOs,
    root: Seq<char>,
    app: Seq<char>,
    release: Seq<char>,
    service: bool,
    items: Seq<ItemView>,
    a: Log,
    b: Log,
    r: Result<Seq<ItemView>, ErrorView>,
) -> bool {
    match local_domain_result(app) {
        Err(error) => b == a && r == Err::<Seq<ItemView>, ErrorView>(error),
        Ok(domain) => local_route_audited(os, root, app, release, service, domain, items, a, b, r),
    }
}

fn audit_routes<T: RemoteHost>(
    session: &mut Session<T>,
    os: &HostOs,
    root: &str,
    app: &str,
    release: &str,
    service: bool,
    items: Vec<AuditItem>,
) -> (r: Result<Vec<AuditItem>, CiaoError>)
    ensures
        final(session).peer() == old(session).peer(),
        routes_audited(
            *os,
            root@,
            app@,
            release@,
            service,
            items_view(items@),
            old(session)@,
            final(session)@,
            items_outcome(r),
        ),
{
    let domain = local_domain(app);
    let ghost view = text_outcome(domain);
    match domain {
        Err(error) => {
            assert(view == Err::<Seq<char>, ErrorView>(error@));
            Err(error)
        },
        Ok(domain) => {
            assert(view == Ok::<Seq<char>, ErrorView>(domain@));
            audit_local_route(session, os, root, app, release, service, domain.as_str(), items)
        },
    }
}

/// An application with an active release was audited.
pub open spec fn release_audited(
    os: HostOs,
    root: Seq<char>,
    app: Seq<char>,
    release: Seq<char>,
    items: Seq<ItemView>,
    a: Log,
    b: Log,
    r: Result<Seq<ItemView>, ErrorView>,
) -> bool {
    exists|m: Log, x: Result<ReleaseManifest, ErrorView>|
        #[trigger] manifest_read(root, app, release, a, m, x) && match x {
            Err(error) => b == m && r == Err::<Seq<ItemView>, ErrorView>(error),
            Ok(manifest) => routes_audited(
                os,
                root,
                app,
                release,
                manifest.app_type is Service,
                items,
                m,
                b,
                r,
            ),
        }
}

fn audit_release<T: RemoteHost>(
    session: &mut Session<T>,
    os: &HostOs,
    root: &str,
    app: &str,
    release: &str,
    items: Vec<AuditItem>,
) -> (r: Result<Vec<AuditItem>, CiaoError>)
    ensures
        final(session).peer() == old(session).peer(),
        release_audited(
            *os,
            root@,
            app@,
            release@,
            items_view(items@),
            old(session)@,
            final(session)@,
            items_outcome(r),
        ),
{
    let outcome = read_release_manifest(session, root, app, release);
    let ghost view = manifest_outcome(outcome);
    match outcome {
        Err(error) => {
            assert(view == Err::<ReleaseManifest, ErrorView>(error@));
            Err(error)
        },
        Ok(manifest) => {
            assert(view == Ok::<ReleaseManifest, ErrorView>(manifest));
            let service = matches!(manifest.app_type, AppType::Service);
            audit_routes(session, os, root, app, release, service, items)
        },
    }
}

/// An application without an active release.
pub open spec fn no_release_item(root: Seq<char>, app: Seq<char>) -> ItemView {
    ItemView {
        path: current_path(root, app),
        status: "missing"@,
        expected: Some("active release symlink"@),
        actual: None,
    }
}

/// One application was audited.
pub open spec fn app_audited(
    os: HostOs,
    root: Seq<char>,
    app: Seq<char>,
    items: Seq<ItemView>,
    a: Log,
    b: Log,
    r: Result<Seq<ItemView>, ErrorView>,
) -> bool {
    exists|m: Log, x: Result<Option<Seq<char>>, ErrorView>|
        #[trigger] current_release_read(root, app, a, m, x) && match x {
            Err(error) => b == m && r == Err::<Seq<ItemView>, ErrorView>(error),
            Ok(None) => b == m
                && r == Ok::<Seq<ItemView>, ErrorView>(items.push(no_release_item(root, app))),
            Ok(Some(release)) => release_audited(os, root, app, release, items, m, b, r),
        }
}

fn audit_app<T: RemoteHost>(
    session: &mut Session<T>,
    os: &HostOs,
    root: &str,
    app: &str,
    items: Vec<AuditItem>,
) -> (r: Result<Vec<AuditItem>, CiaoError>)
    ensures
        final(session).peer() == old(session).peer(),
        app_audited(
            *os,
            root@,
            app@,
            items_view(items@),
            old(session)@,
            final(session)@,
            items_outcome(r),
        ),
{
    let outcome = read_current_release(session, root, app);
    let ghost view = opt_text_outcome(outcome);
    match outcome {
        Err(error) => {
            assert(view == Err::<Option<Seq<char>>, ErrorView>(error@));
            Err(error)
        },
        Ok(None) => {
            assert(view == Ok::<Option<Seq<char>>, ErrorView>(None));
            let path = current_link(root, app);
            let item = make_item(path.as_str(), "missing", "active release symlink", None);
            assert(item@ == no_release_item(root@, app@));
            Ok(add_item(items, item))
        },
        Ok(Some(release)) => {
            assert(view == Ok::<Option<Seq<char>>, ErrorView>(Some(release@)));
            audit_release(session, os, root, app, release.as_str(), items)
        },
    }
}

/// The applications were audited, from `from` on.
pub open spec fn apps_audited(
    os: HostOs,
    root: Seq<char>,
    apps: Seq<Seq<char>>,
    from: nat,
    items: Seq<ItemView>,
    a: Log,
    b: Log,
    r: Result<Seq<ItemView>, ErrorView>,
) -> bool
    decreases apps.len() - from,
{
    if from >= apps.len() {
        b == a && r == Ok::<Seq<ItemView>, ErrorView>(items)
    } else {
        exists|m: Log, x: Result<Seq<ItemView>, ErrorView>|
            #[trigger] app_audited(os, root, apps[from as int], items, a, m, x) && match x {
                Err(error) => b == m && r == Err::<Seq<ItemView>, ErrorView>(error),
                Ok(items) => apps_audited(os, root, apps, from + 1, items, m, b, r),
            }
    }
}

fn audit_apps<T: RemoteHost>(
    session: &mut Session<T>,
    os: &HostOs,
    root: &str,
    apps: &Vec<String>,
    from: usize,
    items: Vec<AuditItem>,
) -> (r: Result<Vec<AuditItem>, CiaoError>)
    requires
        from <= apps@.len(),
    ensures
        final(session).peer() == old(session).peer(),
        apps_audited(
            *os,
            root@,
            texts(apps@),
            from as nat,
            items_view(items@),
            old(session)@,
            final(session)@,
            items_outcome(r),
        ),
    decreases apps@.len() - from,
{
    if from == apps.len() {
        return Ok(items);
    }
    assert(texts(apps@)[from as int] == apps@[from as int]@);
    let outcome = audit_app(session, os, root, apps[from].as_str(), items);
    let ghost view = items_outcome(outcome);
    match outcome {
        Err(error) => {
            assert(view == Err::<Seq<ItemView>, ErrorView>(error@));
            Err(error)
        },
        Ok(items) => {
            assert(view == Ok::<Seq<ItemView>, ErrorView>(items_view(items@)));
            audit_apps(session, os, root, apps, from + 1, items)
        },
    }
}

// ---------------------------------------------------------------------------
// The whole host
// ---------------------------------------------------------------------------

pub const MACOS_CADDYFILE: &'static str = "set -eu\n\
    for path in /opt/homebrew/etc/Caddyfile /usr/local/etc/Caddyfile; do if test -f \"$path\"; then printf '__CIAO_PATH__%s\\n' \"$path\"; cat \"$path\"; exit 0; fi; done\n\
    printf '__CIAO_MISSING__'\n";

pub const LINUX_CADDYFILE: &'static str = "set -eu\n\
    path=/etc/caddy/Caddyfile\n\
    if sudo -n test -f \"$path\"; then printf '__CIAO_PATH__%s\\n' \"$path\"; sudo -n cat \"$path\"; else printf '__CIAO_MISSING__'; fi\n";

pub open spec fn caddyfile_question(os: HostOs) -> CommandView {
    CommandView {
        full_output: true,
        ..script_command(
            "audit Caddyfile"@,
            if os is MacOs {
                MACOS_CADDYFILE@
            } else {
                LINUX_CADDYFILE@
            },
        )
    }
}

/// The first line of a text, and what follows it.
pub open spec fn first_line(text: Seq<char>) -> (Seq<char>, Seq<char>) {
    match find_from(text, "\n"@, 0) {
        None => (text, Seq::empty()),
        Some(at) => (text.take(at as int), text.skip(at as int + 1)),
    }
}

fn cut_first_line(text: &str) -> (r: (String, String))
    ensures
        (r.0@, r.1@) == first_line(text@),
{
    proof {
        reveal_strlit("\n");
    }
    let chars = characters(text);
    let needle = characters("\n");
    let total: usize = chars.len();
    match find_chars(&chars, &needle, 0) {
        None => {
            let rest = String::new();
            assert(rest@ =~= Seq::<char>::empty());
            (text.to_owned(), rest)
        },
        Some(at) => {
            assert(needle@.len() == 1 && at + 1 <= total);
            let first = text_between(&chars, 0, at);
            let rest = text_between(&chars, at + 1, total);
            assert(first@ =~= text@.take(at as int));
            assert(rest@ =~= text@.skip(at as int + 1));
            (first, rest)
        },
    }
}

/// The path and the contents of the Caddyfile; where there is none, its usual
/// path and nothing.
pub open spec fn caddyfile_in(stdout: Seq<char>) -> (Seq<char>, Seq<char>) {
    let (first, rest) = first_line(stdout);
    if first == MISSING_FILE@ {
        ("/etc/caddy/Caddyfile"@, Seq::empty())
    } else {
        match without_prefix(first, "__CIAO_PATH__"@) {
            Some(path) => (path, rest),
            None => (first, rest),
        }
    }
}

fn read_caddyfile_answer(stdout: &str) -> (r: (String, String))
    ensures
        (r.0@, r.1@) == caddyfile_in(stdout@),
{
    let (first, rest) = cut_first_line(stdout);
    if same_text(first.as_str(), MISSING_FILE) {
        let none = String::new();
        assert(none@ =~= Seq::<char>::empty());
        return ("/etc/caddy/Caddyfile".to_owned(), none);
    }
    match strip_prefix(first.as_str(), "__CIAO_PATH__") {
        Some(path) => (path, rest),
        None => (first, rest),
    }
}

pub const CADDY_IMPORT: &'static str = "import /etc/caddy/ciao/*.caddy";

/// Whether the Caddyfile takes up Ciao's routes.
pub open spec fn caddyfile_item(stdout: Seq<char>) -> ItemView {
    let (path, contents) = caddyfile_in(stdout);
    let present = contains_text(contents, CADDY_IMPORT@);
    ItemView {
        path,
        status: if present {
            "ok"@
        } else {
            "drift"@
        },
        expected: Some(CADDY_IMPORT@),
        actual: Some(
            if present {
                CADDY_IMPORT@
            } else {
                "missing"@
            },
        ),
    }
}

fn make_caddyfile_item(stdout: &str) -> (r: AuditItem)
    ensures
        r@ == caddyfile_item(stdout@),
{
    let (path, contents) = read_caddyfile_answer(stdout);
    if text_contains(contents.as_str(), CADDY_IMPORT) {
        make_item(path.as_str(), "ok", CADDY_IMPORT, Some(CADDY_IMPORT))
    } else {
        make_item(path.as_str(), "drift", CADDY_IMPORT, Some("missing"))
    }
}

pub open spec fn caddyfile_result(x: Result<OutputView, ErrorView>) -> Result<
    Seq<ItemView>,
    ErrorView,
> {
    match successful("audit Caddyfile"@, x) {
        Err(error) => Err(error),
        Ok(stdout) => Ok(seq![caddyfile_item(stdout)]),
    }
}

/// The Caddyfile of the host was audited.
pub open spec fn caddyfile_audited(
    os: HostOs,
    a: Log,
    b: Log,
    r: Result<Seq<ItemView>, ErrorView>,
) -> bool {
    exists|x: Result<OutputView, ErrorView>|
        #[trigger] executed(caddyfile_question(os), a, b, x) && r == caddyfile_result(x)
}

fn audit_caddyfile<T: RemoteHost>(session: &mut Session<T>, os: &HostOs) -> (r: Result<
    Vec<AuditItem>,
    CiaoError,
>)
    ensures
        final(session).peer() == old(session).peer(),
        caddyfile_audited(*os, old(session)@, final(session)@, items_outcome(r)),
{
    let script = if os.is_macos() {
        MACOS_CADDYFILE
    } else {
        LINUX_CADDYFILE
    };
    let answer = session.exec(script_spec("audit Caddyfile", script).with_full_output());
    match successful_output("audit Caddyfile", answer) {
        Err(error) => Err(error),
        Ok(stdout) => {
            let list: Vec<AuditItem> = vec![make_caddyfile_item(stdout.as_str())];
            assert(items_view(list@) =~= seq![caddyfile_item(stdout@)]);
            Ok(list)
        },
    }
}

/// Whether a line of the policy is `expected`.
pub open spec fn has_line(list: Seq<Seq<char>>, expected: Seq<char>) -> bool {
    exists|i: int| 0 <= i < list.len() && trim(#[trigger] list[i]) == expected
}

fn finds_line(list: &Vec<String>, expected: &str) -> (r: bool)
    ensures
        r == has_line(texts(list@), expected@),
{
    let ghost all = texts(list@);
    let mut i: usize = 0;
    while i < list.len()
        invariant
            i <= list@.len(),
            all == texts(list@),
            forall|j: int| 0 <= j < i ==> trim(#[trigger] all[j]) != expected@,
        decreases list@.len() - i,
    {
        assert(all[i as int] == list@[i as int]@);
        if same_text(trimmed(list[i].as_str()).as_str(), expected) {
            return true;
        }
        i += 1;
    }
    false
}

pub open spec fn text_or_empty(text: Option<Seq<char>>) -> Seq<char> {
    match text {
        Some(text) => text,
        None => Seq::empty(),
    }
}

/// Whether the login user may use `sudo` without a password.
pub open spec fn sudo_item(user: Seq<char>, actual: Seq<char>) -> ItemView {
    let expected = user + " ALL=(ALL) NOPASSWD: ALL"@;
    ItemView {
        path: "/etc/sudoers.d/ciao"@,
        status: if has_line(lines(actual), expected) {
            "ok"@
        } else {
            "drift"@
        },
        expected: Some(expected),
        actual: Some(actual),
    }
}

fn make_sudo_item(user: &str, actual: &str) -> (r: AuditItem)
    ensures
        r@ == sudo_item(user@, actual@),
{
    let expected = user.to_owned().concat(" ALL=(ALL) NOPASSWD: ALL");
    let status = if finds_line(&text_lines(actual), expected.as_str()) {
        "ok"
    } else {
        "drift"
    };
    make_item("/etc/sudoers.d/ciao", status, expected.as_str(), Some(actual))
}

fn text_or_none(text: Option<String>) -> (r: String)
    ensures
        r@ == text_or_empty(opt_text(text)),
{
    match text {
        Some(text) => text,
        None => {
            let none = String::new();
            assert(none@ =~= Seq::<char>::empty());
            none
        },
    }
}

pub open spec fn main_policy_audited(
    user: Seq<char>,
    fragment: Option<Seq<char>>,
    items: Seq<ItemView>,
    a: Log,
    b: Log,
    r: Result<Seq<ItemView>, ErrorView>,
) -> bool {
    exists|m: Log, x: Result<Option<Seq<char>>, ErrorView>|
        #[trigger] audit_file_read("/etc/sudoers"@, "read sudoers policy"@, a, m, x) && match x {
            Err(error) => b == m && r == Err::<Seq<ItemView>, ErrorView>(error),
            Ok(main) => b == m
                && r == Ok::<Seq<ItemView>, ErrorView>(
                    items.push(sudo_item(user, text_or_empty(fragment) + text_or_empty(main))),
                ),
        }
}

fn audit_main_policy<T: RemoteHost>(
    session: &mut Session<T>,
    user: &str,
    fragment: Option<String>,
    items: Vec<AuditItem>,
) -> (r: Result<Vec<AuditItem>, CiaoError>)
    ensures
        final(session).peer() == old(session).peer(),
        main_policy_audited(
            user@,
            opt_text(fragment),
            items_view(items@),
            old(session)@,
            final(session)@,
            items_outcome(r),
        ),
{
    let outcome = read_audit_file(session, "/etc/sudoers", "read sudoers policy");
    let ghost view = opt_text_outcome(outcome);
    match outcome {
        Err(error) => {
            assert(view == Err::<Option<Seq<char>>, ErrorView>(error@));
            Err(error)
        },
        Ok(main) => {
            assert(view == Ok::<Option<Seq<char>>, ErrorView>(opt_text(main)));
            let actual = text_or_none(fragment).concat(text_or_none(main).as_str());
            Ok(add_item(items, make_sudo_item(user, actual.as_str())))
        },
    }
}

/// The `sudo` policy of a user was audited.
pub open spec fn policy_audited(
    user: Seq<char>,
    items: Seq<ItemView>,
    a: Log,
    b: Log,
    r: Result<Seq<ItemView>, ErrorView>,
) -> bool {
    exists|m: Log, x: Result<Option<Seq<char>>, ErrorView>|
        #[trigger] audit_file_read("/etc/sudoers.d/ciao"@, "read Ciao sudoers policy"@, a, m, x) && match x {
            Err(error) => b == m && r == Err::<Seq<ItemView>, ErrorView>(error),
            Ok(fragment) => main_policy_audited(user, fragment, items, m, b, r),
        }
}

fn audit_policy<T: RemoteHost>(
    session: &mut Session<T>,
    user: &str,
    items: Vec<AuditItem>,
) -> (r: Result<Vec<AuditItem>, CiaoError>)
    ensures
        final(session).peer() == old(session).peer(),
        policy_audited(user@, items_view(items@), old(session)@, final(session)@, items_outcome(r)),
{
    let outcome = read_audit_file(session, "/etc/sudoers.d/ciao", "read Ciao sudoers policy");
    let ghost view = opt_text_outcome(outcome);
    match outcome {
        Err(error) => {
            assert(view == Err::<Option<Seq<char>>, ErrorView>(error@));
            Err(error)
        },
        Ok(fragment) => {
            assert(view == Ok::<Option<Seq<char>>, ErrorView>(opt_text(fragment)));
            audit_main_policy(session, user, fragment, items)
        },
    }
}

/// The `sudo` policy of the login user was audited, where the destination names
/// one.
pub open spec fn sudo_audited(
    target: Seq<char>,
    items: Seq<ItemView>,
    a: Log,
    b: Log,
    r: Result<Seq<ItemView>, ErrorView>,
) -> bool {
    match login_user(target) {
        None => b == a && r == Ok::<Seq<ItemView>, ErrorView>(items),
        Some(user) => policy_audited(user, items, a, b, r),
    }
}

fn audit_sudo<T: RemoteHost>(session: &mut Session<T>, target: &str, items: Vec<AuditItem>) -> (r:
    Result<Vec<AuditItem>, CiaoError>)
    ensures
        final(session).peer() == old(session).peer(),
        sudo_audited(
            target@,
            items_view(items@),
            old(session)@,
            final(session)@,
            items_outcome(r),
        ),
{
    match ssh_login_user(target) {
        None => Ok(items),
        Some(user) => audit_policy(session, user.as_str(), items),
    }
}

/// The lines that are not blank, trimmed.
pub open spec fn listed_paths(list: Seq<Seq<char>>) -> Seq<Seq<char>>
    decreases list.len(),
{
    if list.len() == 0 {
        Seq::empty()
    } else if trim(list.last()).len() == 0 {
        listed_paths(list.drop_last())
    } else {
        listed_paths(list.drop_last()).push(trim(list.last()))
    }
}

fn list_paths(stdout: &str) -> (r: Vec<String>)
    ensures
        texts(r@) == listed_paths(lines(stdout@)),
{
    let list = text_lines(stdout);
    let ghost all = texts(list@);
    let mut out: Vec<String> = Vec::new();
    let mut i: usize = 0;
    assert(all.take(0) =~= Seq::<Seq<char>>::empty());
    assert(texts(out@) =~= listed_paths(all.take(0)));
    while i < list.len()
        invariant
            i <= list@.len(),
            all == texts(list@),
            texts(out@) == listed_paths(all.take(i as int)),
        decreases list@.len() - i,
    {
        proof {
            assert(all.take(i + 1).drop_last() =~= all.take(i as int));
            assert(all.take(i + 1).last() == list@[i as int]@);
        }
        let path = trimmed(list[i].as_str());
        if !path.as_str().is_empty() {
            let ghost before = out@;
            let ghost text = path@;
            out.push(path);
            assert(texts(out@) =~= texts(before).push(text));
        }
        i += 1;
    }
    assert(all.take(i as int) =~= all);
    out
}

/// The last part of a path.
pub open spec fn last_part(path: Seq<char>) -> Seq<char> {
    split_on(path, '/').last()
}

fn last_part_of(path: &str) -> (r: String)
    ensures
        r@ == last_part(path@),
{
    proof {
        crate::text::lemma_split_nonempty(path@, '/');
    }
    let parts = split_text(path, '/');
    assert(texts(parts@).len() == parts@.len());
    assert(texts(parts@).last() == parts@[parts@.len() - 1]@);
    parts[parts.len() - 1].clone()
}

/// The application that a Caddy fragment belongs to, by its name.
pub open spec fn fragment_app(path: Seq<char>) -> Seq<char> {
    last_part(
        trim_suffixes(
            trim_suffixes(trim_suffixes(path, ".local.caddy"@), ".funnel.caddy"@),
            ".caddy"@,
        ),
    )
}

fn app_of_fragment(path: &str) -> (r: String)
    ensures
        r@ == fragment_app(path@),
{
    proof {
        reveal_strlit(".local.caddy");
        reveal_strlit(".funnel.caddy");
        reveal_strlit(".caddy");
    }
    last_part_of(
        trim_end_matches(
            trim_end_matches(trim_end_matches(path, ".local.caddy").as_str(), ".funnel.caddy").as_str(),
            ".caddy",
        ).as_str(),
    )
}

/// The application that a service unit belongs to, by its name.
pub open spec fn unit_app(path: Seq<char>) -> Seq<char> {
    let name = match without_prefix(trim_suffixes(last_part(path), ".service"@), "ciao-"@) {
        Some(name) => name,
        None => Seq::empty(),
    };
    trim_suffixes(trim_suffixes(trim_suffixes(name, "-slot-a"@), "-slot-b"@), "-candidate"@)
}

fn app_of_unit(path: &str) -> (r: String)
    ensures
        r@ == unit_app(path@),
{
    proof {
        reveal_strlit(".service");
        reveal_strlit("-slot-a");
        reveal_strlit("-slot-b");
        reveal_strlit("-candidate");
    }
    let stem = trim_end_matches(last_part_of(path).as_str(), ".service");
    let name = text_or_none(strip_prefix(stem.as_str(), "ciao-"));
    trim_end_matches(
        trim_end_matches(trim_end_matches(name.as_str(), "-slot-a").as_str(), "-slot-b").as_str(),
        "-candidate",
    )
}

pub open spec fn app_of(path: Seq<char>, unit: bool) -> Seq<char> {
    if unit {
        unit_app(path)
    } else {
        fragment_app(path)
    }
}

/// Something of Ciao's that belongs to no application.
pub open spec fn orphan_item(path: Seq<char>, unit: bool) -> ItemView {
    ItemView {
        path,
        status: "orphan"@,
        expected: Some(
            if unit {
                "managed Ciao application unit"@
            } else {
                "managed application route"@
            },
        ),
        actual: Some(
            if unit {
                "unmanaged systemd unit"@
            } else {
                "unmanaged Caddy fragment"@
            },
        ),
    }
}

/// `items` with the paths that belong to none of `apps`.
pub open spec fn with_orphans(
    items: Seq<ItemView>,
    paths: Seq<Seq<char>>,
    apps: Seq<Seq<char>>,
    unit: bool,
) -> Seq<ItemView>
    decreases paths.len(),
{
    if paths.len() == 0 {
        items
    } else {
        let before = with_orphans(items, paths.drop_last(), apps, unit);
        if apps.contains(app_of(paths.last(), unit)) {
            before
        } else {
            before.push(orphan_item(paths.last(), unit))
        }
    }
}

fn contains_name(list: &Vec<String>, name: &str) -> (r: bool)
    ensures
        r == texts(list@).contains(name@),
{
    let ghost all = texts(list@);
    let mut i: usize = 0;
    while i < list.len()
        invariant
            i <= list@.len(),
            all == texts(list@),
            forall|j: int| 0 <= j < i ==> all[j] != name@,
        decreases list@.len() - i,
    {
        assert(all[i as int] == list@[i as int]@);
        if same_text(list[i].as_str(), name) {
            assert(all.contains(name@));
            return true;
        }
        i += 1;
    }
    false
}

fn add_orphans(
    items: Vec<AuditItem>,
    paths: &Vec<String>,
    apps: &Vec<String>,
    unit: bool,
) -> (r: Vec<AuditItem>)
    ensures
        items_view(r@) == with_orphans(items_view(items@), texts(paths@), texts(apps@), unit),
{
    let ghost first = items_view(items@);
    let ghost all = texts(paths@);
    let mut items = items;
    let mut i: usize = 0;
    assert(all.take(0) =~= Seq::<Seq<char>>::empty());
    while i < paths.len()
        invariant
            i <= paths@.len(),
            all == texts(paths@),
            items_view(items@) == with_orphans(first, all.take(i as int), texts(apps@), unit),
        decreases paths@.len() - i,
    {
        proof {
            assert(all.take(i + 1).drop_last() =~= all.take(i as int));
            assert(all.take(i + 1).last() == paths@[i as int]@);
        }
        let path = paths[i].as_str();
        let name = if unit {
            app_of_unit(path)
        } else {
            app_of_fragment(path)
        };
        if !contains_name(apps, name.as_str()) {
            let item = if unit {
                make_item(
                    path,
                    "orphan",
                    "managed Ciao application unit",
                    Some("unmanaged systemd unit"),
                )
            } else {
                make_item(
                    path,
                    "orphan",
                    "managed application route",
                    Some("unmanaged Caddy fragment"),
                )
            };
            assert(item@ == orphan_item(path@, unit));
            items = add_item(items, item);
        }
        i += 1;
    }
    assert(all.take(i as int) =~= all);
    items
}

pub const LIST_FRAGMENTS: &'static str = "set -eu\n\
    for path in /etc/caddy/ciao/*.caddy; do test -f \"$path\" && printf '%s\\n' \"$path\"; done\n";

pub const LIST_UNITS: &'static str = "set -eu\n\
    for path in /etc/systemd/system/ciao-*.service; do test -f \"$path\" && printf '%s\\n' \"$path\"; done\n";

pub open spec fn listing_question(unit: bool) -> CommandView {
    if unit {
        script_command("list Ciao systemd units"@, LIST_UNITS@)
    } else {
        script_command("list Caddy fragments"@, LIST_FRAGMENTS@)
    }
}

pub open spec fn orphans_result(
    apps: Seq<Seq<char>>,
    unit: bool,
    items: Seq<ItemView>,
    x: Result<OutputView, ErrorView>,
) -> Result<Seq<ItemView>, ErrorView> {
    match x {
        Err(error) => Err(error),
        Ok(output) => Ok(with_orphans(items, listed_paths(lines(output.stdout)), apps, unit)),
    }
}

/// What belongs to no application was looked for.
pub open spec fn orphans_audited(
    apps: Seq<Seq<char>>,
    unit: bool,
    items: Seq<ItemView>,
    a: Log,
    b: Log,
    r: Result<Seq<ItemView>, ErrorView>,
) -> bool {
    exists|x: Result<OutputView, ErrorView>|
        #[trigger] executed(listing_question(unit), a, b, x) && r == orphans_result(
            apps,
            unit,
            items,
            x,
        )
}

fn audit_orphans<T: RemoteHost>(
    session: &mut Session<T>,
    apps: &Vec<String>,
    unit: bool,
    items: Vec<AuditItem>,
) -> (r: Result<Vec<AuditItem>, CiaoError>)
    ensures
        final(session).peer() == old(session).peer(),
        orphans_audited(
            texts(apps@),
            unit,
            items_view(items@),
            old(session)@,
            final(session)@,
            items_outcome(r),
        ),
{
    let command = if unit {
        script_spec("list Ciao systemd units", LIST_UNITS)
    } else {
        script_spec("list Caddy fragments", LIST_FRAGMENTS)
    };
    match session.exec(command) {
        Err(error) => Err(error),
        Ok(output) => Ok(add_orphans(items, &list_paths(output.stdout.as_str()), apps, unit)),
    }
}

/// Units without an application were looked for, on a host that has units.
pub open spec fn units_audited(
    os: HostOs,
    apps: Seq<Seq<char>>,
    items: Seq<ItemView>,
    a: Log,
    b: Log,
    r: Result<Seq<ItemView>, ErrorView>,
) -> bool {
    if os is Linux {
        orphans_audited(apps, true, items, a, b, r)
    } else {
        b == a && r == Ok::<Seq<ItemView>, ErrorView>(items)
    }
}

fn audit_units<T: RemoteHost>(
    session: &mut Session<T>,
    os: &HostOs,
    apps: &Vec<String>,
    items: Vec<AuditItem>,
) -> (r: Result<Vec<AuditItem>, CiaoError>)
    ensures
        final(session).peer() == old(session).peer(),
        units_audited(
            *os,
            texts(apps@),
            items_view(items@),
            old(session)@,
            final(session)@,
            items_outcome(r),
        ),
{
    if matches!(os, HostOs::Linux) {
        audit_orphans(session, apps, true, items)
    } else {
        Ok(items)
    }
}

/// What an audit found.
#[derive(Debug, PartialEq, Eq)]
pub struct HostAuditResult {
    pub host: String,
    pub drift_count: usize,
    pub items: Vec<AuditItem>,
    pub message: String,
}

pub struct AuditView {
    pub host: Seq<char>,
    pub drift_count: nat,
    pub items: Seq<ItemView>,
    pub message: Seq<char>,
}

impl View for HostAuditResult {
    type V = AuditView;

    open spec fn view(&self) -> AuditView {
        AuditView {
            host: self.host@,
            drift_count: self.drift_count as nat,
            items: items_view(self.items@),
            message: self.message@,
        }
    }
}

pub open spec fn audit_outcome(r: Result<HostAuditResult, CiaoError>) -> Result<
    AuditView,
    ErrorView,
> {
    match r {
        Ok(result) => Ok(result@),
        Err(error) => Err(error@),
    }
}

/// How many things are not as they should be.
pub open spec fn drift_in(items: Seq<ItemView>) -> nat
    decreases items.len(),
{
    if items.len() == 0 {
        0
    } else {
        drift_in(items.drop_last()) + if items.last().status == "ok"@ {
            0nat
        } else {
            1nat
        }
    }
}

fn count_drift(items: &Vec<AuditItem>) -> (r: usize)
    ensures
        r == drift_in(items_view(items@)),
        r <= items@.len(),
{
    let ghost all = items_view(items@);
    let mut count: usize = 0;
    let mut i: usize = 0;
    assert(all.take(0) =~= Seq::<ItemView>::empty());
    while i < items.len()
        invariant
            i <= items@.len(),
            count <= i,
            all == items_view(items@),
            count == drift_in(all.take(i as int)),
        decreases items@.len() - i,
    {
        proof {
            assert(all.take(i + 1).drop_last() =~= all.take(i as int));
            assert(all.take(i + 1).last() == items@[i as int]@);
        }
        if !same_text(items[i].status.as_str(), "ok") {
            count += 1;
        }
        i += 1;
    }
    assert(all.take(i as int) =~= all);
    count
}

pub open spec fn audit_view(host: Seq<char>, items: Seq<ItemView>) -> AuditView {
    let count = drift_in(items);
    AuditView {
        host,
        drift_count: count,
        items,
        message: if count == 0 {
            "\u{2713} host audit: no drift detected"@
        } else {
            "\u{26a0} host audit: "@ + decimal(count) + " drift item(s)"@
        },
    }
}

fn make_audit(host: String, items: Vec<AuditItem>) -> (r: HostAuditResult)
    ensures
        r@ == audit_view(host@, items_view(items@)),
{
    let count: usize = count_drift(&items);
    let message = if count == 0 {
        "\u{2713} host audit: no drift detected".to_owned()
    } else {
        "\u{26a0} host audit: ".to_owned().concat(decimal_text(count as u64).as_str()).concat(
            " drift item(s)",
        )
    };
    HostAuditResult { host, drift_count: count, items, message }
}

pub open spec fn app_names(apps: Seq<StatusResult>) -> Seq<Seq<char>> {
    Seq::new(apps.len(), |i: int| apps[i].app@)
}

fn names_of(apps: &Vec<StatusResult>) -> (r: Vec<String>)
    ensures
        texts(r@) == app_names(apps@),
{
    let ghost all = app_names(apps@);
    let mut out: Vec<String> = Vec::new();
    let mut i: usize = 0;
    assert(texts(out@) =~= all.take(0));
    while i < apps.len()
        invariant
            i <= apps@.len(),
            all == app_names(apps@),
            texts(out@) == all.take(i as int),
        decreases apps@.len() - i,
    {
        let ghost before = out@;
        out.push(apps[i].app.clone());
        proof {
            assert(texts(out@) =~= texts(before).push(all[i as int]));
            assert(all.take(i + 1) =~= all.take(i as int).push(all[i as int]));
        }
        i += 1;
    }
    assert(all.take(i as int) =~= all);
    out
}

pub open spec fn units_finished(
    os: HostOs,
    apps: Seq<Seq<char>>,
    host: Seq<char>,
    items: Seq<ItemView>,
    a: Log,
    b: Log,
    r: Result<AuditView, ErrorView>,
) -> bool {
    exists|m: Log, x: Result<Seq<ItemView>, ErrorView>|
        #[trigger] units_audited(os, apps, items, a, m, x) && match x {
            Err(error) => b == m && r == Err::<AuditView, ErrorView>(error),
            Ok(items) => b == m && r == Ok::<AuditView, ErrorView>(audit_view(host, items)),
        }
}

fn finish_units<T: DeployHost>(
    session: &mut Session<T>,
    os: &HostOs,
    apps: &Vec<String>,
    host: String,
    items: Vec<AuditItem>,
) -> (r: Result<HostAuditResult, CiaoError>)
    ensures
        final(session).peer() == old(session).peer(),
        units_finished(
            *os,
            texts(apps@),
            host@,
            items_view(items@),
            old(session)@,
            final(session)@,
            audit_outcome(r),
        ),
{
    let outcome = audit_units(session, os, apps, items);
    let ghost view = items_outcome(outcome);
    match outcome {
        Err(error) => {
            assert(view == Err::<Seq<ItemView>, ErrorView>(error@));
            Err(error)
        },
        Ok(items) => {
            assert(view == Ok::<Seq<ItemView>, ErrorView>(items_view(items@)));
            Ok(make_audit(host, items))
        },
    }
}

pub open spec fn orphans_finished(
    os: HostOs,
    apps: Seq<Seq<char>>,
    host: Seq<char>,
    items: Seq<ItemView>,
    a: Log,
    b: Log,
    r: Result<AuditView, ErrorView>,
) -> bool {
    exists|m: Log, x: Result<Seq<ItemView>, ErrorView>|
        #[trigger] orphans_audited(apps, false, items, a, m, x) && match x {
            Err(error) => b == m && r == Err::<AuditView, ErrorView>(error),
            Ok(items) => units_finished(os, apps, host, items, m, b, r),
        }
}

fn finish_orphans<T: DeployHost>(
    session: &mut Session<T>,
    os: &HostOs,
    apps: &Vec<String>,
    host: String,
    items: Vec<AuditItem>,
) -> (r: Result<HostAuditResult, CiaoError>)
    ensures
        final(session).peer() == old(session).peer(),
        orphans_finished(
            *os,
            texts(apps@),
            host@,
            items_view(items@),
            old(session)@,
            final(session)@,
            audit_outcome(r),
        ),
{
    let outcome = audit_orphans(session, apps, false, items);
    let ghost view = items_outcome(outcome);
    match outcome {
        Err(error) => {
            assert(view == Err::<Seq<ItemView>, ErrorView>(error@));
            Err(error)
        },
        Ok(items) => {
            assert(view == Ok::<Seq<ItemView>, ErrorView>(items_view(items@)));
            finish_units(session, os, apps, host, items)
        },
    }
}

pub open spec fn sudo_finished(
    os: HostOs,
    apps: Seq<Seq<char>>,
    host: Seq<char>,
    items: Seq<ItemView>,
    a: Log,
    b: Log,
    r: Result<AuditView, ErrorView>,
) -> bool {
    exists|m: Log, x: Result<Seq<ItemView>, ErrorView>|
        #[trigger] sudo_audited(host, items, a, m, x) && match x {
            Err(error) => b == m && r == Err::<AuditView, ErrorView>(error),
            Ok(items) => orphans_finished(os, apps, host, items, m, b, r),
        }
}

fn finish_sudo<T: DeployHost>(
    session: &mut Session<T>,
    os: &HostOs,
    apps: &Vec<String>,
    host: String,
    items: Vec<AuditItem>,
) -> (r: Result<HostAuditResult, CiaoError>)
    ensures
        final(session).peer() == old(session).peer(),
        sudo_finished(
            *os,
            texts(apps@),
            host@,
            items_view(items@),
            old(session)@,
            final(session)@,
            audit_outcome(r),
        ),
{
    let outcome = audit_sudo(session, host.as_str(), items);
    let ghost view = items_outcome(outcome);
    match outcome {
        Err(error) => {
            assert(view == Err::<Seq<ItemView>, ErrorView>(error@));
            Err(error)
        },
        Ok(items) => {
            assert(view == Ok::<Seq<ItemView>, ErrorView>(items_view(items@)));
            finish_orphans(session, os, apps, host, items)
        },
    }
}

/// What is left once the applications were audited: the policy, and what
/// belongs to no application.
pub open spec fn rest_audited(
    os: HostOs,
    apps: Seq<Seq<char>>,
    items: Seq<ItemView>,
    a: Log,
    b: Log,
    r: Result<AuditView, ErrorView>,
) -> bool {
    exists|m: Log, target: Seq<char>|
        #[trigger] destination_read(a, m, target) && sudo_finished(os, apps, target, items, m, b, r)
}

fn audit_rest<T: DeployHost>(
    session: &mut Session<T>,
    os: &HostOs,
    apps: &Vec<String>,
    items: Vec<AuditItem>,
) -> (r: Result<HostAuditResult, CiaoError>)
    ensures
        final(session).peer() == old(session).peer(),
        rest_audited(
            *os,
            texts(apps@),
            items_view(items@),
            old(session)@,
            final(session)@,
            audit_outcome(r),
        ),
{
    let ghost before = session@;
    let target = session.destination();
    assert(destination_read(before, session@, target@));
    finish_sudo(session, os, apps, target, items)
}

pub open spec fn apps_finished(
    os: HostOs,
    apps: Seq<Seq<char>>,
    items: Seq<ItemView>,
    a: Log,
    b: Log,
    r: Result<AuditView, ErrorView>,
) -> bool {
    exists|m: Log, x: Result<Seq<ItemView>, ErrorView>|
        #[trigger] apps_audited(os, app_root(os), apps, 0, items, a, m, x) && match x {
            Err(error) => b == m && r == Err::<AuditView, ErrorView>(error),
            Ok(items) => rest_audited(os, apps, items, m, b, r),
        }
}

fn finish_apps<T: DeployHost>(
    session: &mut Session<T>,
    os: &HostOs,
    apps: &Vec<String>,
    items: Vec<AuditItem>,
) -> (r: Result<HostAuditResult, CiaoError>)
    ensures
        final(session).peer() == old(session).peer(),
        apps_finished(
            *os,
            texts(apps@),
            items_view(items@),
            old(session)@,
            final(session)@,
            audit_outcome(r),
        ),
{
    let root = host_app_root(os);
    let outcome = audit_apps(session, os, root.as_str(), apps, 0, items);
    let ghost view = items_outcome(outcome);
    match outcome {
        Err(error) => {
            assert(view == Err::<Seq<ItemView>, ErrorView>(error@));
            Err(error)
        },
        Ok(items) => {
            assert(view == Ok::<Seq<ItemView>, ErrorView>(items_view(items@)));
            audit_rest(session, os, apps, items)
        },
    }
}

/// The Caddyfile and all that follows were audited.
pub open spec fn caddyfile_finished(
    os: HostOs,
    apps: Seq<Seq<char>>,
    a: Log,
    b: Log,
    r: Result<AuditView, ErrorView>,
) -> bool {
    exists|m: Log, x: Result<Seq<ItemView>, ErrorView>|
        #[trigger] caddyfile_audited(os, a, m, x) && match x {
            Err(error) => b == m && r == Err::<AuditView, ErrorView>(error),
            Ok(items) => apps_finished(os, apps, items, m, b, r),
        }
}

fn finish_caddyfile<T: DeployHost>(
    session: &mut Session<T>,
    os: &HostOs,
    apps: &Vec<String>,
) -> (r: Result<HostAuditResult, CiaoError>)
    ensures
        final(session).peer() == old(session).peer(),
        caddyfile_finished(*os, texts(apps@), old(session)@, final(session)@, audit_outcome(r)),
{
    let outcome = audit_caddyfile(session, os);
    let ghost view = items_outcome(outcome);
    match outcome {
        Err(error) => {
            assert(view == Err::<Seq<ItemView>, ErrorView>(error@));
            Err(error)
        },
        Ok(items) => {
            assert(view == Ok::<Seq<ItemView>, ErrorView>(items_view(items@)));
            finish_apps(session, os, apps, items)
        },
    }
}

/// The applications of the host were listed.
pub open spec fn apps_listed(a: Log, b: Log, r: Result<Vec<StatusResult>, CiaoError>) -> bool {
    exists|x: Result<Vec<StatusResult>, CiaoError>|
        #[trigger] listed(x, r) && apps_read(a, b, statuses_outcome(x))
}

pub open spec fn apps_then_audited(
    os: HostOs,
    a: Log,
    b: Log,
    r: Result<AuditView, ErrorView>,
) -> bool {
    exists|m: Log, x: Result<Vec<StatusResult>, CiaoError>|
        #[trigger] apps_listed(a, m, x) && match x {
            Err(error) => b == m && r == Err::<AuditView, ErrorView>(error@),
            Ok(apps) => caddyfile_finished(os, app_names(apps@), m, b, r),
        }
}

fn list_then_audit<T: DeployHost>(session: &mut Session<T>, os: &HostOs) -> (r: Result<
    HostAuditResult,
    CiaoError,
>)
    ensures
        final(session).peer() == old(session).peer(),
        apps_then_audited(*os, old(session)@, final(session)@, audit_outcome(r)),
{
    let ghost before = session@;
    let outcome = list_apps(session);
    let ghost view = outcome;
    assert(apps_listed(before, session@, view));
    match outcome {
        Err(error) => {
            assert(view == Err::<Vec<StatusResult>, CiaoError>(error));
            Err(error)
        },
        Ok(apps) => {
            assert(view == Ok::<Vec<StatusResult>, CiaoError>(apps));
            let names = names_of(&apps);
            finish_caddyfile(session, os, &names)
        },
    }
}

/// The host was audited.
pub open spec fn host_audited(a: Log, b: Log, r: Result<AuditView, ErrorView>) -> bool {
    exists|m: Log, x: Result<HostPlatform, ErrorView>|
        #[trigger] inspected(a, m, x) && match x {
            Err(error) => b == m && r == Err::<AuditView, ErrorView>(error),
            Ok(platform) => apps_then_audited(platform.os, m, b, r),
        }
}

/// Holds a host against what Ciao would have written, and tells every difference.
/// Nothing on the host is changed.
pub fn host_audit<T: DeployHost>(
    session: &mut Session<T>,
) -> (r: Result<HostAuditResult, CiaoError>)
    ensures
        final(session).peer() == old(session).peer(),
        host_audited(old(session)@, final(session)@, audit_outcome(r)),
{
    let outcome = session.inspect();
    let ghost view = plain_outcome(outcome);
    match outcome {
        Err(error) => {
            assert(view == Err::<HostPlatform, ErrorView>(error@));
            Err(error)
        },
        Ok(platform) => {
            assert(view == Ok::<HostPlatform, ErrorView>(platform));
            list_then_audit(session, &platform.os)
        },
    }
}

} // verus!
