//! What the operations on an application tell of it and do to it.

use crate::cloudflare::{tunnel_status_read, TunnelStatusView};
use crate::error::ErrorView;
use crate::laws_units::is_verb;
use crate::manifest::ReleaseManifest;
use crate::model::{HostOs, LifecycleAction, ServiceView};
use crate::operations::{
    follow_journal_script, journal_args, lifecycle_view, logs_view, names_in, opt_manifest_read,
    pid_answer, release_view, running_read, slot_or_stable_unit, status_after_current,
    status_after_manifest, status_after_service, status_after_state, status_after_tunnel,
    status_view, unit_acted, OperationView, ReleaseInfo, StatusView,
};
use crate::parts::{carries, carries_part, framed};
use crate::release::app_root;
use crate::remote::{service_asked, CommandView, Exchange, Log};
use crate::removal::{data_removal_plan, release_ports, service_removal_steps};
use crate::rollback::{existing_target, named_target_found, newest_target, rolled_back_view, Turn};
use crate::running::{drift_note, serving_release};
use crate::services::{action_plan, lemma_units_are_managed_and_distinct, remove_plan, state_read};
use crate::shell::shell_quoted;
use crate::steps::{performed, StepView};
use crate::text::{parse_number, trim};
use crate::validate::valid_identifier;
use vstd::prelude::*;

verus! {

// ---------------------------------------------------------------------------
// Units
// ---------------------------------------------------------------------------

/// An application runs in the unit of its slot, and without one in its own unit.
pub proof fn lemma_unit_follows_the_slot(app: Seq<char>, slot: char)
    requires
        valid_identifier(app),
        slot == 'a' || slot == 'b',
    ensures
        slot_or_stable_unit(app, Some(slot)) == Ok::<Seq<char>, ErrorView>(
            "ciao-"@ + app + "-slot-"@ + seq![slot] + ".service"@,
        ),
        slot_or_stable_unit(app, None) == Ok::<Seq<char>, ErrorView>("ciao-"@ + app + ".service"@),
{
}

/// The release that serves is the one that the running service names, and
/// without such a name the one that is current.
pub proof fn lemma_running_service_goes_before_the_link(
    service: Option<ServiceView>,
    current: Option<Seq<char>>,
)
    ensures
        service matches Some(found) ==> (found.release matches Some(release) ==> serving_release(
            service,
            current,
        ) == Some(release)),
        service is None ==> serving_release(service, current) == current,
        service matches Some(found) ==> (found.release is None ==> serving_release(service, current)
            == current),
        serving_release(service, current) is Some && current is Some && serving_release(
            service,
            current,
        ) != current ==> drift_note(current, serving_release(service, current))
            == "\n  release drift: current points to "@ + current->0
            + ", active service serves "@ + serving_release(service, current)->0,
        serving_release(service, current) == current ==> drift_note(current, current).len() == 0,
{
}

// ---------------------------------------------------------------------------
// Status
// ---------------------------------------------------------------------------

/// A status tells of the application that was asked for, of the release that
/// serves and of its manifest. A tunnel's host name goes before a domain.
pub proof fn lemma_status_tells_of_the_app(
    app: Seq<char>,
    os: HostOs,
    current: Option<Seq<char>>,
    release: Option<Seq<char>>,
    manifest: Option<ReleaseManifest>,
    status: Seq<char>,
    tunnel: Option<TunnelStatusView>,
    domain: Option<Seq<char>>,
)
    ensures
        ({
            let view = status_view(app, os, current, release, manifest, status, tunnel, domain);
            &&& view.app == app
            &&& view.status == status
            &&& view.release == release
            &&& manifest matches Some(found) ==> view.port == found.port && view.app_type == Some(
                found.app_type,
            )
            &&& manifest is None ==> view.port is None && view.app_type is None
            &&& os is Linux ==> view.service_manager == "systemd"@
            &&& os is MacOs ==> view.service_manager == "launchd"@
            &&& tunnel matches Some(found) ==> view.domain == Some(found.hostname)
            &&& tunnel is None ==> view.domain == domain
            &&& view.cloudflare == tunnel
        }),
{
}

/// Where the status of an application is read, the host is asked for the service
/// that runs, and the status names the release that serves.
pub proof fn lemma_status_names_the_serving_release(
    app: Seq<char>,
    os: HostOs,
    current: Option<Seq<char>>,
    a: Log,
    b: Log,
    view: StatusView,
) -> (service: Option<ServiceView>)
    requires
        status_after_current(app, os, current, a, b, Ok(view)),
    ensures
        service_asked(os, app_root(os), app, a, a.push(
            Exchange::Service(os, app_root(os), app, Ok(service)),
        ), Ok(service)),
        status_after_service(
            app,
            os,
            current,
            service,
            a.push(Exchange::Service(os, app_root(os), app, Ok(service))),
            b,
            Ok(view),
        ),
        view.app == app,
        view.release == match service {
            Some(found) => match found.release {
                Some(release) => Some(release),
                None => current,
            },
            None => current,
        },
{
    let r = Ok::<StatusView, ErrorView>(view);
    let (m, x) = choose|m: Log, x: Result<Option<ServiceView>, ErrorView>|
        #[trigger] service_asked(os, app_root(os), app, a, m, x) && match x {
            Err(error) => b == m && r == Err::<StatusView, ErrorView>(error),
            Ok(service) => status_after_service(app, os, current, service, m, b, r),
        };
    let service = x->Ok_0;
    lemma_status_after_service(app, os, current, service, a.push(
        Exchange::Service(os, app_root(os), app, Ok(service)),
    ), b, view);
    service
}

proof fn lemma_status_after_service(
    app: Seq<char>,
    os: HostOs,
    current: Option<Seq<char>>,
    service: Option<ServiceView>,
    a: Log,
    b: Log,
    view: StatusView,
)
    requires
        status_after_service(app, os, current, service, a, b, Ok(view)),
    ensures
        view.app == app,
        view.release == serving_release(service, current),
{
    let r = Ok::<StatusView, ErrorView>(view);
    let (m, x) = choose|m: Log, x: Result<Option<ReleaseManifest>, ErrorView>|
        #[trigger] opt_manifest_read(
            app_root(os),
            app,
            serving_release(service, current),
            a,
            m,
            x,
        ) && match x {
            Err(error) => b == m && r == Err::<StatusView, ErrorView>(error),
            Ok(manifest) => status_after_manifest(app, os, current, service, manifest, m, b, r),
        };
    let manifest = x->Ok_0;
    let (n, y) = choose|n: Log, y: Result<Seq<char>, ErrorView>|
        #[trigger] running_read(os, app_root(os), app, service, manifest, m, n, y) && match y {
            Err(error) => b == n && r == Err::<StatusView, ErrorView>(error),
            Ok(status) => status_after_state(
                app,
                os,
                current,
                serving_release(service, current),
                manifest,
                status,
                n,
                b,
                r,
            ),
        };
    let status = y->Ok_0;
    let release = serving_release(service, current);
    let (o, z) = choose|o: Log, z: Result<Option<TunnelStatusView>, ErrorView>|
        #[trigger] tunnel_status_read(app, n, o, z) && match z {
            Err(error) => b == o && r == Err::<StatusView, ErrorView>(error),
            Ok(tunnel) => status_after_tunnel(
                app,
                os,
                current,
                release,
                manifest,
                status,
                tunnel,
                o,
                b,
                r,
            ),
        };
    assert(status_after_tunnel(app, os, current, release, manifest, status, z->Ok_0, o, b, r));
}

/// A static site is always up; of a service the unit that runs is asked.
pub proof fn lemma_site_is_always_up(
    os: HostOs,
    root: Seq<char>,
    app: Seq<char>,
    service: Option<ServiceView>,
    manifest: Option<ReleaseManifest>,
    a: Log,
    b: Log,
    r: Result<Seq<char>, ErrorView>,
)
    requires
        running_read(os, root, app, service, manifest, a, b, r),
    ensures
        (manifest matches Some(found) && found.app_type is Static) ==> r == Ok::<
            Seq<char>,
            ErrorView,
        >("active"@) && b == a,
        !(manifest matches Some(found) && found.app_type is Static) && os !is Unknown ==> (
        service matches Some(found) ==> state_read(os, found.unit, a, b, r)),
{
}

// ---------------------------------------------------------------------------
// Releases
// ---------------------------------------------------------------------------

/// A release is listed as active exactly where it is the one that serves.
pub proof fn lemma_listed_release_is_described_by_its_manifest(
    app: Seq<char>,
    release: Seq<char>,
    current: Option<Seq<char>>,
    manifest: ReleaseManifest,
)
    ensures
        ({
            let view = release_view(app, release, current, manifest);
            &&& view.app == app
            &&& view.release == release
            &&& view.active <==> current == Some(release)
            &&& view.runtime == manifest.runtime
            &&& view.app_type == manifest.app_type
            &&& view.port == manifest.port
            &&& view.created_at_unix == manifest.created_at_unix
        }),
{
}

/// The names in a listing are its lines, trimmed, without those that are blank.
pub proof fn lemma_names_are_the_lines_that_say_something(list: Seq<Seq<char>>, name: Seq<char>)
    ensures
        names_in(list).contains(name) <==> name.len() > 0 && exists|i: int|
            0 <= i < list.len() && trim(#[trigger] list[i]) == name,
        names_in(list).len() <= list.len(),
    decreases list.len(),
{
    if list.len() > 0 {
        let rest = list.drop_last();
        lemma_names_are_the_lines_that_say_something(rest, name);
        if names_in(list).contains(name) {
            if names_in(rest).contains(name) {
                let i = choose|i: int| 0 <= i < rest.len() && trim(#[trigger] rest[i]) == name;
                assert(trim(list[i]) == name);
            } else {
                let k = names_in(list).index_of(name);
                assert(k == names_in(rest).len() || names_in(rest)[k] == name);
                assert(trim(list[list.len() - 1]) == name);
            }
        }
        if name.len() > 0 && exists|i: int|
            0 <= i < list.len() && trim(#[trigger] list[i]) == name {
            let i = choose|i: int| 0 <= i < list.len() && trim(#[trigger] list[i]) == name;
            if i < rest.len() {
                assert(trim(rest[i]) == name);
                let k = names_in(rest).index_of(name);
                assert(names_in(list)[k] == name);
            } else {
                assert(names_in(list).last() == name);
            }
        }
    }
}

// ---------------------------------------------------------------------------
// Logs
// ---------------------------------------------------------------------------

/// Logs are asked of the unit of the application, as many lines as were wanted,
/// and since the time that was given, where one was.
pub proof fn lemma_journal_is_asked_of_the_unit(
    unit: Seq<char>,
    count: Seq<char>,
    since: Option<Seq<char>>,
)
    ensures
        ({
            let args = journal_args(unit, count, since);
            &&& args[1] == "journalctl"@
            &&& args[2] == "-u"@ && args[3] == unit
            &&& args[4] == "-n"@ && args[5] == count
            &&& since is None ==> args.len() == 8
            &&& since matches Some(time) ==> args.len() == 10 && args[8] == "--since"@ && args[9]
                == time
        }),
{
}

/// Logs are shown as they were read, with what is known of the service.
pub proof fn lemma_logs_are_shown_as_read(
    app: Seq<char>,
    release: Option<Seq<char>>,
    port: Option<u16>,
    pid: Option<u32>,
    event: Option<Seq<char>>,
    logs: Seq<char>,
)
    ensures
        ({
            let view = logs_view(app, release, port, pid, event, logs);
            &&& view.app == app
            &&& view.logs == logs
            &&& view.release == release
            &&& view.port == port
            &&& view.pid == pid
            &&& view.last_event_timestamp == event
        }),
{
}

/// Following logs asks the journal of that unit, and does not end by itself.
pub proof fn lemma_follow_asks_the_unit(unit: Seq<char>, since: Seq<char>)
    ensures
        follow_journal_script(unit, since) == "set -eu\nexec sudo -n journalctl -u "@
            + shell_quoted(unit) + " -n 200 -f --no-pager --output=short-iso"@ + since + "\n"@,
{
}

// ---------------------------------------------------------------------------
// Lifecycle
// ---------------------------------------------------------------------------

/// A start, stop or restart is done to the unit that runs, and the result says
/// what was done to which application.
pub proof fn lemma_action_is_done_and_told(
    os: HostOs,
    app: Seq<char>,
    action: LifecycleAction,
    unit: Seq<char>,
    a: Log,
    b: Log,
    view: OperationView,
)
    requires
        unit_acted(os, app, action, unit, a, b, Ok(view)),
    ensures
        performed(action_plan(os, unit, action), a, b, Ok(())),
        view.app == app,
        is_verb(action, view.action),
        view.changed,
{
    let x = choose|x: Result<(), ErrorView>|
        #[trigger] performed(action_plan(os, unit, action), a, b, x) && Ok::<
            OperationView,
            ErrorView,
        >(view) == lifecycle_view(app, action, x);
    assert(x->Ok_0 =~= ());
}

// ---------------------------------------------------------------------------
// Removal
// ---------------------------------------------------------------------------

/// The step asks the host to remove the unit, whether or not that succeeds.
pub open spec fn tries_to_remove(step: StepView, unit: Seq<char>) -> bool {
    &&& step is Attempt
    &&& carries_part(
        step->Attempt_0,
        "\nsudo -n rm -f /etc/systemd/system/"@ + shell_quoted(unit)
            + "\nsudo -n systemctl daemon-reload\n"@,
    )
}

/// To remove an application takes away all its routes, then all its data, and
/// nothing of another application.
pub proof fn lemma_removal_takes_routes_and_data(
    os: HostOs,
    app: Seq<char>,
    commands: Seq<CommandView>,
    root: Seq<char>,
)
    requires
        data_removal_plan(os, app) == Ok::<Seq<CommandView>, ErrorView>(commands),
        root == app_root(os),
    ensures
        commands.len() == 3,
        carries(
            commands[0],
            "set -eu\nsudo -n rm -f /etc/caddy/ciao/"@ + shell_quoted(app)
                + ".caddy /etc/caddy/ciao/"@ + shell_quoted(app)
                + ".local.caddy /etc/caddy/ciao/"@ + shell_quoted(app) + ".funnel.caddy\n"@,
        ),
        carries(
            commands[2],
            "set -eu\nsudo -n rm -rf "@ + shell_quoted(root + "/"@ + app) + "\n"@,
        ),
{
}

/// A service on Linux loses its own unit and those of both slots; a static site
/// has none to lose.
pub proof fn lemma_removal_takes_all_units(app: Seq<char>, manifest: Option<ReleaseManifest>)
    requires
        valid_identifier(app),
    ensures
        ({
            let steps = service_removal_steps(HostOs::Linux, app, manifest);
            let site = manifest matches Some(found) && found.app_type is Static;
            &&& site ==> steps.len() == 0
            &&& !site ==> steps.len() == 4 && tries_to_remove(
                steps[1],
                "ciao-"@ + app + ".service"@,
            ) && tries_to_remove(steps[2], "ciao-"@ + app + "-slot-"@ + seq!['a'] + ".service"@)
                && tries_to_remove(
                steps[3],
                "ciao-"@ + app + "-slot-"@ + seq!['b'] + ".service"@,
            )
        }),
{
    lemma_units_are_managed_and_distinct(app, 'a');
    lemma_units_are_managed_and_distinct(app, 'b');
    lemma_removal_of("ciao-"@ + app + ".service"@);
    lemma_removal_of("ciao-"@ + app + "-slot-"@ + seq!['a'] + ".service"@);
    lemma_removal_of("ciao-"@ + app + "-slot-"@ + seq!['b'] + ".service"@);
}

proof fn lemma_removal_of(unit: Seq<char>)
    requires
        remove_plan(HostOs::Linux, unit) is Ok,
    ensures
        carries_part(
            remove_plan(HostOs::Linux, unit)->Ok_0[0],
            "\nsudo -n rm -f /etc/systemd/system/"@ + shell_quoted(unit)
                + "\nsudo -n systemctl daemon-reload\n"@,
        ),
{
    let command = remove_plan(HostOs::Linux, unit)->Ok_0[0];
    let first = "set -eu\nsudo -n systemctl disable --now "@ + shell_quoted(unit);
    let mid = " 2>/dev/null || true\nsudo -n rm -f /etc/systemd/system/"@;
    let cut = "\nsudo -n rm -f /etc/systemd/system/"@;
    assert(mid =~= mid.take(mid.len() - cut.len()) + cut) by {
        reveal_strlit(" 2>/dev/null || true\nsudo -n rm -f /etc/systemd/system/");
        reveal_strlit("\nsudo -n rm -f /etc/systemd/system/");
    }
    let script = first + mid + shell_quoted(unit) + "\nsudo -n systemctl daemon-reload\n"@;
    assert(carries(command, script));
    reveal_strlit("");
    assert(framed(
        first + mid.take(mid.len() - cut.len()),
        cut + shell_quoted(unit) + "\nsudo -n systemctl daemon-reload\n"@,
        ""@,
    ) =~= script);
}

/// The ports that are cleaned up are exactly those of the releases.
pub proof fn lemma_ports_of_releases(list: Seq<ReleaseInfo>, port: u16)
    ensures
        release_ports(list).contains(port) <==> exists|i: int|
            0 <= i < list.len() && #[trigger] list[i].port == Some(port),
    decreases list.len(),
{
    if list.len() > 0 {
        let rest = list.drop_last();
        lemma_ports_of_releases(rest, port);
        let all = release_ports(list);
        if all.contains(port) {
            if release_ports(rest).contains(port) {
                let i = choose|i: int| 0 <= i < rest.len() && #[trigger] rest[i].port == Some(port);
                assert(list[i].port == Some(port));
            } else {
                let k = all.index_of(port);
                assert(k == release_ports(rest).len() || release_ports(rest)[k] == port);
                assert(list[list.len() - 1].port == Some(port));
            }
        }
        if exists|i: int| 0 <= i < list.len() && #[trigger] list[i].port == Some(port) {
            let i = choose|i: int| 0 <= i < list.len() && #[trigger] list[i].port == Some(port);
            if i < rest.len() {
                assert(rest[i].port == Some(port));
                let k = release_ports(rest).index_of(port);
                assert(all[k] == port);
            } else {
                assert(all.last() == port);
            }
        }
    }
}

// ---------------------------------------------------------------------------
// Targets of a rollback
// ---------------------------------------------------------------------------

/// A rollback goes to the release that was named only where the host has it and
/// it is not the active one; without a name it goes to the newest that the host
/// finds.
pub proof fn lemma_rollback_goes_where_it_was_told(
    app: Seq<char>,
    current: Seq<char>,
    target: Seq<char>,
    a: Log,
    b: Log,
    r: Result<Seq<char>, ErrorView>,
)
    requires
        named_target_found(app, current, target, a, b, r),
    ensures
        r matches Ok(found) ==> found == target && target != current,
        target == current ==> r is Err && b == a,
        newest_target(app, Ok(Some(target))) == Ok::<Seq<char>, ErrorView>(target),
        newest_target(app, Ok(None)) is Err,
{
}

pub proof fn lemma_named_target_exists(
    app: Seq<char>,
    target: Seq<char>,
    list: Vec<ReleaseInfo>,
)
    ensures
        existing_target(app, target, Ok(list)) is Ok <==> exists|i: int|
            0 <= i < list@.len() && #[trigger] list@[i].release@ == target,
        existing_target(app, target, Ok(list)) matches Ok(found) ==> found == target,
{
}

/// What is told of a rollback names where it came from and where it went.
pub proof fn lemma_rollback_is_told(turn: Turn, active: Seq<char>)
    ensures
        rolled_back_view(turn, active).app == turn.app@,
        rolled_back_view(turn, active).action == "rollback"@,
        rolled_back_view(turn, active).changed,
        rolled_back_view(turn, active).message == "\u{2713} rolled back "@ + turn.app@ + " from "@
            + turn.current@ + " to "@ + turn.target@ + "; active release `"@ + active + "`"@,
{
}

/// A process id of zero means that nothing runs.
pub proof fn lemma_no_process_has_id_zero(stdout: Seq<char>)
    ensures
        pid_answer(stdout) matches Some(pid) ==> pid > 0 && parse_number(
            trim(stdout),
            4_294_967_295,
        ) == Some(pid as nat),
{
}

} // verus!
