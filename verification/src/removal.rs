//! Taking an application off its host.

use crate::candidate::{no_steps, slot_remove, slot_remove_plan};
use crate::cloudflare::{remove_cloudflare_tunnel_if_owned, tunnel_removed};
use crate::domain::{caddy_reload_script, reload_script};
use crate::error::{unit_outcome, CiaoError, ErrorView};
use crate::funnel::{disable_tailscale_funnel, funnel_disabled};
use crate::manifest::ReleaseManifest;
use crate::model::{HostOs, HostPlatform, LifecycleAction, OperationResult};
use crate::observe::{current_release_read, read_current_release};
use crate::operations::{
    has_static_release, is_static, list_releases, operation_outcome, opt_manifest_read,
    read_manifest_of, releases_listed, OperationView, ReleaseInfo,
};
use crate::release::{app_dir, app_directory, app_root, host_app_root};
use crate::remote::{
    inspected, script_command, script_spec, serve_cleaned, CommandSpec, CommandView, DeployHost,
    Log, NoopProgressReporter, Session,
};
use crate::running::{effective_read, effective_release_for_app};
use crate::services::{
    action_plan, remove_plan, remove_service, service_action, service_unit_name, unit_name,
};
use crate::shell::{shell_quote, shell_quoted};
use crate::steps::{
    add_attempted, attempted, commands_view, perform, performed, plan_outcome, ran, run_steps,
    steps_view, Step, StepView,
};
use crate::validate::{identifier_check, validate_identifier};
use vstd::prelude::*;

verus! {

/// Removing the services of an application, as far as there are any.
pub open spec fn service_removal_steps(
    os: HostOs,
    app: Seq<char>,
    manifest: Option<ReleaseManifest>,
) -> Seq<StepView> {
    let unit = unit_name(app, false);
    if is_static(manifest) {
        Seq::empty()
    } else {
        let removed = Seq::empty() + attempted(action_plan(os, unit, LifecycleAction::Stop))
            + attempted(remove_plan(os, unit));
        if os is Linux {
            removed + attempted(slot_remove_plan(os, app, 'a')) + attempted(
                slot_remove_plan(os, app, 'b'),
            )
        } else {
            removed
        }
    }
}

fn plan_service_removal(
    os: &HostOs,
    app: &str,
    manifest: &Option<ReleaseManifest>,
) -> (r: Vec<Step>)
    ensures
        steps_view(r@) == service_removal_steps(*os, app@, *manifest),
{
    let mut steps = no_steps();
    if !has_static_release(manifest) {
        let unit = service_unit_name(app, false);
        add_attempted(&mut steps, service_action(os, unit.as_str(), LifecycleAction::Stop));
        add_attempted(&mut steps, remove_service(os, unit.as_str()));
        if os.is_linux() {
            add_attempted(&mut steps, slot_remove(os, app, 'a'));
            add_attempted(&mut steps, slot_remove(os, app, 'b'));
        }
    }
    steps
}

/// Removing the routes and the files of an application.
pub open spec fn data_removal_plan(
    os: HostOs,
    app: Seq<char>,
) -> Result<Seq<CommandView>, ErrorView> {
    let path = app_dir(app_root(os), app);
    Ok(
        seq![
            script_command(
                "remove application Caddy routes"@,
                "set -eu\nsudo -n rm -f /etc/caddy/ciao/"@ + shell_quoted(app)
                    + ".caddy /etc/caddy/ciao/"@ + shell_quoted(app)
                    + ".local.caddy /etc/caddy/ciao/"@ + shell_quoted(app) + ".funnel.caddy\n"@,
            ),
            script_command("reload Caddy"@, reload_script(os)),
            script_command(
                "remove application data"@,
                "set -eu\nsudo -n rm -rf "@ + shell_quoted(path) + "\n"@,
            ),
        ],
    )
}

fn remove_data(os: &HostOs, app: &str) -> (r: Result<Vec<CommandSpec>, CiaoError>)
    ensures
        plan_outcome(r) == data_removal_plan(*os, app@),
{
    let path_text = app_directory(host_app_root(os).as_str(), app);
    let path = path_text.as_str();
    let routes = "set -eu\nsudo -n rm -f /etc/caddy/ciao/".to_owned()
        .concat(shell_quote(app).as_str())
        .concat(".caddy /etc/caddy/ciao/")
        .concat(shell_quote(app).as_str())
        .concat(".local.caddy /etc/caddy/ciao/")
        .concat(shell_quote(app).as_str())
        .concat(".funnel.caddy\n");
    let data = "set -eu\nsudo -n rm -rf ".to_owned()
        .concat(shell_quote(path).as_str())
        .concat("\n");
    let list: Vec<CommandSpec> = vec![
        script_spec("remove application Caddy routes", routes.as_str()),
        script_spec("reload Caddy", caddy_reload_script(os).as_str()),
        script_spec("remove application data", data.as_str()),
    ];
    assert(commands_view(list@) =~= data_removal_plan(*os, app@)->Ok_0);
    Ok(list)
}

pub open spec fn removed_view(
    app: Seq<char>,
    x: Result<(), ErrorView>,
) -> Result<OperationView, ErrorView> {
    match x {
        Err(error) => Err(error),
        Ok(_) => Ok(
            OperationView {
                app,
                action: "remove"@,
                changed: true,
                message: "✓ removed "@ + app,
            },
        ),
    }
}

pub open spec fn data_removed(
    os: HostOs,
    app: Seq<char>,
    a: Log,
    b: Log,
    r: Result<OperationView, ErrorView>,
) -> bool {
    exists|x: Result<(), ErrorView>|
        #[trigger] performed(data_removal_plan(os, app), a, b, x) && r == removed_view(app, x)
}

pub open spec fn removed_after_services(
    os: HostOs,
    app: Seq<char>,
    a: Log,
    b: Log,
    r: Result<OperationView, ErrorView>,
) -> bool {
    exists|m: Log, x: Result<(), ErrorView>|
        #[trigger] funnel_disabled(app, a, m, x) && match x {
            Err(error) => b == m && r == Err::<OperationView, ErrorView>(error),
            Ok(_) => data_removed(os, app, m, b, r),
        }
}

pub open spec fn removed_after_tunnel(
    os: HostOs,
    app: Seq<char>,
    manifest: Option<ReleaseManifest>,
    a: Log,
    b: Log,
    r: Result<OperationView, ErrorView>,
) -> bool {
    exists|m: Log, x: Result<(), ErrorView>|
        #[trigger] ran(service_removal_steps(os, app, manifest), None, a, m, x)
            && removed_after_services(os, app, m, b, r)
}

pub open spec fn removed_with_manifest(
    os: HostOs,
    app: Seq<char>,
    manifest: Option<ReleaseManifest>,
    a: Log,
    b: Log,
    r: Result<OperationView, ErrorView>,
) -> bool {
    exists|m: Log, x: Result<bool, ErrorView>|
        #[trigger] tunnel_removed(app, a, m, x) && match x {
            Err(error) => b == m && r == Err::<OperationView, ErrorView>(error),
            Ok(_) => removed_after_tunnel(os, app, manifest, m, b, r),
        }
}

/// The ports of the releases that have one, in their order.
pub open spec fn release_ports(list: Seq<ReleaseInfo>) -> Seq<u16>
    decreases list.len(),
{
    if list.len() == 0 {
        Seq::empty()
    } else {
        let front = release_ports(list.drop_last());
        match list.last().port {
            Some(port) => front.push(port),
            None => front,
        }
    }
}

fn collect_release_ports(list: &Vec<ReleaseInfo>) -> (r: Vec<u16>)
    ensures
        r@ == release_ports(list@),
{
    let mut ports: Vec<u16> = Vec::new();
    let mut i: usize = 0;
    assert(list@.take(0) =~= Seq::<ReleaseInfo>::empty());
    while i < list.len()
        invariant
            i <= list@.len(),
            ports@ == release_ports(list@.take(i as int)),
        decreases list@.len() - i,
    {
        assert(list@.take(i + 1).drop_last() =~= list@.take(i as int));
        assert(list@.take(i + 1).last() == list@[i as int]);
        if let Some(port) = list[i].port {
            ports.push(port);
        }
        i += 1;
    }
    assert(list@.take(i as int) =~= list@);
    ports
}

pub open spec fn removed_with_ports(
    os: HostOs,
    app: Seq<char>,
    manifest: Option<ReleaseManifest>,
    ports: Seq<u16>,
    a: Log,
    b: Log,
    r: Result<OperationView, ErrorView>,
) -> bool {
    exists|m: Log, x: Result<(), ErrorView>|
        #[trigger] serve_cleaned(app, ports, a, m, x) && match x {
            Err(error) => b == m && r == Err::<OperationView, ErrorView>(error),
            Ok(_) => removed_with_manifest(os, app, manifest, m, b, r),
        }
}

/// The releases were listed, and the Tailscale Serve entries of their ports
/// taken away, before anything else was removed.
pub open spec fn removed_after_listing(
    os: HostOs,
    app: Seq<char>,
    manifest: Option<ReleaseManifest>,
    a: Log,
    b: Log,
    r: Result<OperationView, ErrorView>,
) -> bool {
    exists|m: Log, x: Result<Vec<ReleaseInfo>, CiaoError>|
        #[trigger] releases_listed(app, a, m, x) && match x {
            Err(error) => b == m && r == Err::<OperationView, ErrorView>(error@),
            Ok(list) => removed_with_ports(os, app, manifest, release_ports(list@), m, b, r),
        }
}

pub open spec fn removed_with_release(
    os: HostOs,
    app: Seq<char>,
    release: Option<Seq<char>>,
    a: Log,
    b: Log,
    r: Result<OperationView, ErrorView>,
) -> bool {
    exists|m: Log, x: Result<Option<ReleaseManifest>, ErrorView>|
        #[trigger] opt_manifest_read(app_root(os), app, release, a, m, x) && match x {
            Err(error) => b == m && r == Err::<OperationView, ErrorView>(error),
            Ok(manifest) => removed_after_listing(os, app, manifest, m, b, r),
        }
}

pub open spec fn removed_on(
    os: HostOs,
    app: Seq<char>,
    a: Log,
    b: Log,
    r: Result<OperationView, ErrorView>,
) -> bool {
    exists|m: Log, x: Result<Option<Seq<char>>, ErrorView>|
        #[trigger] current_release_read(app_root(os), app, a, m, x) && match x {
            Err(error) => b == m && r == Err::<OperationView, ErrorView>(error),
            Ok(current) => removed_with_current(os, app, current, m, b, r),
        }
}

pub open spec fn removed_with_current(
    os: HostOs,
    app: Seq<char>,
    current: Option<Seq<char>>,
    a: Log,
    b: Log,
    r: Result<OperationView, ErrorView>,
) -> bool {
    exists|m: Log, x: Result<Option<Seq<char>>, ErrorView>|
        #[trigger] effective_read(os, app_root(os), app, current, a, m, x) && match x {
            Err(error) => b == m && r == Err::<OperationView, ErrorView>(error),
            Ok(release) => removed_with_release(os, app, release, m, b, r),
        }
}

pub open spec fn known_app_removed(
    app: Seq<char>,
    a: Log,
    b: Log,
    r: Result<OperationView, ErrorView>,
) -> bool {
    exists|m: Log, x: Result<HostPlatform, ErrorView>|
        #[trigger] inspected(a, m, x) && match x {
            Err(error) => b == m && r == Err::<OperationView, ErrorView>(error),
            Ok(platform) => removed_on(platform.os, app, m, b, r),
        }
}

/// An application was taken off its host.
#[verifier::opaque]
pub open spec fn app_removed(
    app: Seq<char>,
    a: Log,
    b: Log,
    r: Result<OperationView, ErrorView>,
) -> bool {
    match identifier_check("app name"@, app) {
        Err(error) => b == a && r == Err::<OperationView, ErrorView>(error),
        Ok(_) => known_app_removed(app, a, b, r),
    }
}

fn remove_after_services<T: DeployHost>(
    session: &mut Session<T>,
    os: &HostOs,
    app: &str,
) -> (r: Result<OperationResult, CiaoError>)
    ensures
        final(session).peer() == old(session).peer(),
        removed_after_services(
            *os,
            app@,
            old(session)@,
            final(session)@,
            operation_outcome(r),
        ),
{
    disable_tailscale_funnel(session, app)?;
    let ghost before = session@;
    let outcome = perform(session, remove_data(os, app));
    assert(performed(data_removal_plan(*os, app@), before, session@, unit_outcome(outcome)));
    outcome?;
    Ok(
        OperationResult {
            app: app.to_owned(),
            action: "remove".to_owned(),
            changed: true,
            message: "✓ removed ".to_owned().concat(app),
        },
    )
}

fn remove_with_manifest<T: DeployHost>(
    session: &mut Session<T>,
    os: &HostOs,
    app: &str,
    manifest: &Option<ReleaseManifest>,
) -> (r: Result<OperationResult, CiaoError>)
    ensures
        final(session).peer() == old(session).peer(),
        removed_with_manifest(
            *os,
            app@,
            *manifest,
            old(session)@,
            final(session)@,
            operation_outcome(r),
        ),
{
    remove_cloudflare_tunnel_if_owned(session, app)?;
    let steps = plan_service_removal(os, app, manifest);
    let ghost before = session@;
    let outcome = run_steps(session, &NoopProgressReporter, &steps);
    assert(ran(
        service_removal_steps(*os, app@, *manifest),
        None,
        before,
        session@,
        unit_outcome(outcome),
    ));
    remove_after_services(session, os, app)
}

fn remove_after_listing<T: DeployHost>(
    session: &mut Session<T>,
    os: &HostOs,
    app: &str,
    manifest: &Option<ReleaseManifest>,
) -> (r: Result<OperationResult, CiaoError>)
    ensures
        final(session).peer() == old(session).peer(),
        removed_after_listing(
            *os,
            app@,
            *manifest,
            old(session)@,
            final(session)@,
            operation_outcome(r),
        ),
{
    let ghost before = session@;
    let listing = list_releases(session, app);
    let ghost view = listing;
    assert(releases_listed(app@, before, session@, view));
    match listing {
        Err(error) => Err(error),
        Ok(list) => {
            let ports = collect_release_ports(&list);
            let ghost listed = session@;
            let outcome = session.clean_serve_ports(app, &ports);
            assert(serve_cleaned(app@, ports@, listed, session@, unit_outcome(outcome)));
            outcome?;
            remove_with_manifest(session, os, app, manifest)
        },
    }
}

fn remove_on<T: DeployHost>(session: &mut Session<T>, os: &HostOs, app: &str) -> (r: Result<
    OperationResult,
    CiaoError,
>)
    ensures
        final(session).peer() == old(session).peer(),
        removed_on(*os, app@, old(session)@, final(session)@, operation_outcome(r)),
{
    let root = host_app_root(os);
    let current = read_current_release(session, root.as_str(), app)?;
    let release = effective_release_for_app(session, os, root.as_str(), app, &current)?;
    let manifest = read_manifest_of(session, root.as_str(), app, &release)?;
    remove_after_listing(session, os, app, &manifest)
}

/// Permanently removes a managed application: its Serve entries, its tunnel, its
/// services, its routes and its releases. Where its releases cannot be listed,
/// nothing is removed. This is intentionally explicit and cannot be
/// inferred from a failed deployment.
pub fn remove_app<T: DeployHost>(session: &mut Session<T>, app: &str) -> (r: Result<
    OperationResult,
    CiaoError,
>)
    ensures
        final(session).peer() == old(session).peer(),
        app_removed(app@, old(session)@, final(session)@, operation_outcome(r)),
{
    proof {
        reveal(app_removed);
    }
    validate_identifier("app name", app)?;
    let platform = session.inspect()?;
    remove_on(session, &platform.os, app)
}

} // verus!
