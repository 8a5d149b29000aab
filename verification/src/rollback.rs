//! Going back to an earlier release, and forward again where that fails.

use crate::candidate::{
    no_steps, put_slot_stopped, slot_action, slot_action_plan, slot_disable, slot_disable_plan,
    slot_enable, slot_enable_plan, with_slot_stopped,
};
use crate::cloudflare::{sync_cloudflare_tunnel_if_present, tunnel_synced};
use crate::deploy::release_or_none;
use crate::domain::{
    ciao_domain_configured, cloudflare_domain_configured, configure_domain,
    configure_domain_for_cloudflare, configure_remote_ciao_domain, domain_configured,
    no_active_release, no_active_release_error,
};
use crate::error::{
    config_error, error_message, opt_text_outcome, plain_outcome, text_outcome, unit_outcome,
    CiaoError, ErrorView,
};
use crate::hooks::{remote_hook_plan, run_remote_hook};
use crate::host::{destination_read, init_host, initialized};
use crate::manifest::ReleaseManifest;
use crate::model::{
    ActiveService, AppType, HostOs, HostPlatform, LifecycleAction, OperationResult, ServiceView,
};
use crate::observe::{
    current_release_read, domain_read, existing_domain_is_plain_http, manifest_read,
    previous_read, previous_release, read_current_release, read_existing_domain,
    read_release_manifest, scheme_read,
};
use crate::operations::{
    list_releases, operation_outcome, releases_listed, unit_for_slot, OperationView, ReleaseInfo,
};
use crate::redact::{redact_hook_error, redacted_hook_error};
use crate::release::{
    app_root, build_cache_path, cache_path, current_link, current_path, env_path,
    environment_file, health_command, host_app_root, release_dir, release_directory,
    remote_healthcheck, service_account, service_user, switch_current_script, switch_script,
};
use crate::remote::{
    funnel_synced, inspected, opt_service, reconciled, script_command, script_spec,
    service_asked, service_outcome, CommandSpec, CommandView, DeployHost, Log,
    NoopProgressReporter, RemoteHost, Session,
};
use crate::running::{active_slot_from_unit, chosen_release, serving_release, slot_in_unit};
use crate::services::{
    action_plan, clear_active_slot, clear_slot_plan, disable_plan, disable_service, enable_plan,
    enable_service, install_plan, install_service, is_slot, opposite_slot, other_slot,
    read_active_slot, record_slot_plan, service_action, service_unit_name, slot_read,
    slot_service_unit_name, slot_unit_result, unit_name, write_active_slot,
};
use crate::steps::{
    add_attempted, add_required, add_step, attempted, perform, performed, plan_outcome, ran,
    required, run_steps, steps_view, Step, StepView,
};
use crate::text::{borrow_opt, opt_str, opt_text, same_text};
use crate::validate::{domain_check, identifier_check, validate_domain, validate_identifier};
use vstd::prelude::*;

verus! {

// ---------------------------------------------------------------------------
// Routes
// ---------------------------------------------------------------------------

pub open spec fn known_domain_added(
    app: Seq<char>,
    domain: Seq<char>,
    a: Log,
    b: Log,
    r: Result<(), ErrorView>,
) -> bool {
    exists|m: Log, x: Result<HostPlatform, ErrorView>|
        #[trigger] initialized(false, a, m, x) && match x {
            Err(error) => b == m && r == Err::<(), ErrorView>(error),
            Ok(_) => domain_configured(app, domain, m, b, r),
        }
}

/// A domain was given to an application, on a host that was prepared for it.
pub open spec fn domain_added(
    app: Seq<char>,
    domain: Seq<char>,
    a: Log,
    b: Log,
    r: Result<(), ErrorView>,
) -> bool {
    match identifier_check("app name"@, app) {
        Err(error) => b == a && r == Err::<(), ErrorView>(error),
        Ok(_) => match domain_check(domain) {
            Err(error) => b == a && r == Err::<(), ErrorView>(error),
            Ok(_) => known_domain_added(app, domain, a, b, r),
        },
    }
}

pub fn add_domain<T: RemoteHost>(session: &mut Session<T>, app: &str, domain: &str) -> (r: Result<
    (),
    CiaoError,
>)
    ensures
        final(session).peer() == old(session).peer(),
        domain_added(app@, domain@, old(session)@, final(session)@, unit_outcome(r)),
{
    validate_identifier("app name", app)?;
    validate_domain(domain)?;
    init_host(session)?;
    configure_domain(session, app, domain)
}

/// The domain of an application was routed again, by the scheme that it has.
pub open spec fn kept_domain_routed(
    app: Seq<char>,
    domain: Seq<char>,
    plain: bool,
    a: Log,
    b: Log,
    r: Result<(), ErrorView>,
) -> bool {
    if plain {
        cloudflare_domain_configured(app, domain, a, b, r)
    } else {
        domain_added(app, domain, a, b, r)
    }
}

pub open spec fn kept_domain_set(
    app: Seq<char>,
    domain: Seq<char>,
    a: Log,
    b: Log,
    r: Result<(), ErrorView>,
) -> bool {
    exists|m: Log, x: Result<bool, ErrorView>|
        #[trigger] scheme_read(app, a, m, x) && match x {
            Err(error) => b == m && r == Err::<(), ErrorView>(error),
            Ok(plain) => kept_domain_routed(app, domain, plain, m, b, r),
        }
}

pub open spec fn domain_set(
    app: Seq<char>,
    domain: Option<Seq<char>>,
    a: Log,
    b: Log,
    r: Result<(), ErrorView>,
) -> bool {
    match domain {
        None => b == a && r == Ok::<(), ErrorView>(()),
        Some(domain) => kept_domain_set(app, domain, a, b, r),
    }
}

pub open spec fn tunnel_set_outcome(x: Result<bool, ErrorView>) -> Result<(), ErrorView> {
    match x {
        Ok(_) => Ok(()),
        Err(error) => Err(error),
    }
}

pub open spec fn tunnel_set(app: Seq<char>, a: Log, b: Log, r: Result<(), ErrorView>) -> bool {
    exists|x: Result<bool, ErrorView>|
        #[trigger] tunnel_synced(app, a, b, x) && r == tunnel_set_outcome(x)
}

pub open spec fn tunnel_then_reconciled(
    turn: Turn,
    a: Log,
    b: Log,
    r: Result<(), ErrorView>,
) -> bool {
    exists|m: Log, x: Result<(), ErrorView>|
        #[trigger] tunnel_set(turn.app@, a, m, x) && match x {
            Err(error) => b == m && r == Err::<(), ErrorView>(error),
            Ok(_) => reconciled(turn.os, turn.root@, turn.app@, m, b, r),
        }
}

pub open spec fn funnel_route_set(turn: Turn, a: Log, b: Log, r: Result<(), ErrorView>) -> bool {
    exists|m: Log, x: Result<(), ErrorView>|
        #[trigger] funnel_synced(turn.app@, a, m, x) && match x {
            Err(error) => b == m && r == Err::<(), ErrorView>(error),
            Ok(_) => tunnel_then_reconciled(turn, m, b, r),
        }
}

pub open spec fn local_domain_set(turn: Turn, a: Log, b: Log, r: Result<(), ErrorView>) -> bool {
    exists|m: Log, x: Result<(), ErrorView>|
        #[trigger] ciao_domain_configured(turn.app@, a, m, x) && match x {
            Err(error) => b == m && r == Err::<(), ErrorView>(error),
            Ok(_) => funnel_route_set(turn, m, b, r),
        }
}

/// All routes of an application lead to its current release: its domain, its
/// local domain, its Funnel route and its tunnel, in this order. Last, `current`
/// was brought in line with the running service.
#[verifier::opaque]
pub open spec fn routes_set(turn: Turn, a: Log, b: Log, r: Result<(), ErrorView>) -> bool {
    exists|m: Log, x: Result<(), ErrorView>|
        #[trigger] domain_set(turn.app@, opt_text(turn.domain), a, m, x) && match x {
            Err(error) => b == m && r == Err::<(), ErrorView>(error),
            Ok(_) => local_domain_set(turn, m, b, r),
        }
}

fn set_kept_domain<T: RemoteHost>(session: &mut Session<T>, app: &str, domain: &str) -> (r: Result<
    (),
    CiaoError,
>)
    ensures
        final(session).peer() == old(session).peer(),
        kept_domain_set(app@, domain@, old(session)@, final(session)@, unit_outcome(r)),
{
    let plain = existing_domain_is_plain_http(session, app)?;
    if plain {
        configure_domain_for_cloudflare(session, app, domain)
    } else {
        add_domain(session, app, domain)
    }
}

fn set_domain<T: RemoteHost>(
    session: &mut Session<T>,
    app: &str,
    domain: Option<&str>,
) -> (r: Result<(), CiaoError>)
    ensures
        final(session).peer() == old(session).peer(),
        domain_set(app@, opt_str(domain), old(session)@, final(session)@, unit_outcome(r)),
{
    match domain {
        None => Ok(()),
        Some(domain) => set_kept_domain(session, app, domain),
    }
}

fn set_tunnel<T: RemoteHost>(session: &mut Session<T>, app: &str) -> (r: Result<(), CiaoError>)
    ensures
        final(session).peer() == old(session).peer(),
        tunnel_set(app@, old(session)@, final(session)@, unit_outcome(r)),
{
    let outcome = sync_cloudflare_tunnel_if_present(session, app);
    let ghost view = plain_outcome(outcome);
    match outcome {
        Ok(_) => {
            assert(view is Ok);
            Ok(())
        },
        Err(error) => {
            assert(view == Err::<bool, ErrorView>(error@));
            Err(error)
        },
    }
}

fn set_routes<T: RemoteHost>(session: &mut Session<T>, turn: &Turn) -> (r: Result<(), CiaoError>)
    ensures
        final(session).peer() == old(session).peer(),
        routes_set(*turn, old(session)@, final(session)@, unit_outcome(r)),
{
    proof {
        reveal(routes_set);
    }
    let app = turn.app.as_str();
    set_domain(session, app, borrow_opt(&turn.domain))?;
    configure_remote_ciao_domain(session, app)?;
    set_last_routes(session, turn)
}

fn set_last_routes<T: RemoteHost>(session: &mut Session<T>, turn: &Turn) -> (r: Result<
    (),
    CiaoError,
>)
    ensures
        final(session).peer() == old(session).peer(),
        funnel_route_set(*turn, old(session)@, final(session)@, unit_outcome(r)),
{
    let app = turn.app.as_str();
    session.sync_funnel_route(app)?;
    set_tunnel(session, app)?;
    session.reconcile_current(&turn.os, turn.root.as_str(), app)
}

// ---------------------------------------------------------------------------
// What a rollback starts from
// ---------------------------------------------------------------------------

/// What a rollback starts from.
pub struct Turn {
    pub os: HostOs,
    pub root: String,
    pub app: String,
    /// The active release.
    pub current: String,
    pub current_manifest: ReleaseManifest,
    /// The release to go back to.
    pub target: String,
    pub target_manifest: ReleaseManifest,
    pub slot: Option<char>,
    pub domain: Option<String>,
    /// The SSH destination of the host.
    pub destination: String,
}

impl Turn {
    /// The slot in which the earlier release is started, where it has one.
    pub open spec fn other(self) -> Option<char> {
        if self.target_manifest.port_explicit {
            None
        } else {
            match self.slot {
                Some(slot) => Some(other_slot(slot)),
                None => None,
            }
        }
    }

    pub open spec fn account(self) -> Result<Seq<char>, ErrorView> {
        service_account(self.os, self.destination@, self.app@)
    }

    pub open spec fn path_of(self, release: Seq<char>) -> Seq<char> {
        release_dir(self.root@, self.app@, release)
    }

    pub open spec fn well_formed(self) -> bool {
        self.slot matches Some(slot) ==> is_slot(slot)
    }

    fn other_one(&self) -> (r: Option<char>)
        requires
            self.well_formed(),
        ensures
            r == self.other(),
            r matches Some(slot) ==> is_slot(slot),
    {
        if self.target_manifest.port_explicit {
            return None;
        }
        match self.slot {
            Some(slot) => match opposite_slot(slot) {
                Ok(other) => Some(other),
                Err(_) => None,
            },
            None => None,
        }
    }

    fn user(&self) -> (r: Result<String, CiaoError>)
        ensures
            text_outcome(r) == self.account(),
    {
        service_user(&self.os, self.destination.as_str(), self.app.as_str())
    }
}

/// Installing a unit that runs a release itself.
pub open spec fn unit_install_plan(
    turn: Turn,
    unit: Result<Seq<char>, ErrorView>,
    release: Seq<char>,
) -> Result<Seq<CommandView>, ErrorView> {
    match turn.account() {
        Err(error) => Err(error),
        Ok(user) => match unit {
            Err(error) => Err(error),
            Ok(unit) => install_plan(
                turn.os,
                unit,
                user,
                turn.path_of(release),
                env_path(turn.root@, turn.app@),
                false,
                "./start"@,
            ),
        },
    }
}

fn unit_install(turn: &Turn, unit: Result<String, CiaoError>, release: &str) -> (r: Result<
    Vec<CommandSpec>,
    CiaoError,
>)
    ensures
        plan_outcome(r) == unit_install_plan(*turn, text_outcome(unit), release@),
{
    let user = turn.user()?;
    let unit = unit?;
    install_service(
        &turn.os,
        unit.as_str(),
        user.as_str(),
        release_directory(turn.root.as_str(), turn.app.as_str(), release).as_str(),
        environment_file(turn.root.as_str(), turn.app.as_str()).as_str(),
        false,
        "./start",
    )
}

/// `steps` and then the health check of a release, whose port has to be known.
pub open spec fn with_health(
    steps: Seq<StepView>,
    manifest: ReleaseManifest,
    missing: Seq<char>,
) -> Seq<StepView> {
    match manifest.port {
        Some(port) => steps.push(StepView::Send(health_command(port, manifest.health))),
        None => steps.push(StepView::Fail(ErrorView::Config(missing))),
    }
}

fn put_health(steps: &mut Vec<Step>, manifest: &ReleaseManifest, missing: &str)
    ensures
        steps_view(final(steps)@) == with_health(steps_view(old(steps)@), *manifest, missing@),
{
    match manifest.port {
        Some(port) => {
            add_step(steps, Step::Send(remote_healthcheck(port, &manifest.health)));
        },
        None => {
            add_step(steps, Step::Fail(config_error(missing)));
        },
    }
}

/// `steps` and then both slots given up, as a fixed port needs it.
pub open spec fn with_slots_freed(steps: Seq<StepView>, turn: Turn) -> Seq<StepView> {
    with_slot_stopped(
        with_slot_stopped(steps, turn.os, turn.app@, 'a'),
        turn.os,
        turn.app@,
        'b',
    ) + required(clear_slot_plan(turn.root@, turn.app@))
}

fn put_slots_freed(steps: &mut Vec<Step>, turn: &Turn)
    ensures
        steps_view(final(steps)@) == with_slots_freed(steps_view(old(steps)@), *turn),
{
    put_slot_stopped(steps, &turn.os, turn.app.as_str(), 'a');
    put_slot_stopped(steps, &turn.os, turn.app.as_str(), 'b');
    add_required(steps, clear_active_slot(turn.root.as_str(), turn.app.as_str()));
}

// ---------------------------------------------------------------------------
// Back
// ---------------------------------------------------------------------------

/// Starting the earlier release in the other slot and then stopping the one
/// that runs.
pub open spec fn with_slot_start(steps: Seq<StepView>, turn: Turn, slot: char) -> Seq<StepView> {
    let started = with_health(
        steps + required(
            unit_install_plan(turn, slot_unit_result(turn.app@, slot), turn.target@),
        ) + required(slot_enable_plan(turn.os, turn.app@, slot)) + required(
            slot_action_plan(turn.os, turn.app@, slot, LifecycleAction::Start),
        ),
        turn.target_manifest,
        "rollback release has no port"@,
    );
    match turn.slot {
        Some(old) => started + required(
            slot_action_plan(turn.os, turn.app@, old, LifecycleAction::Stop),
        ) + required(slot_disable_plan(turn.os, turn.app@, old)) + required(
            record_slot_plan(turn.root@, turn.app@, slot),
        ),
        None => started,
    }
}

fn put_slot_start(steps: &mut Vec<Step>, turn: &Turn, slot: char)
    ensures
        steps_view(final(steps)@) == with_slot_start(steps_view(old(steps)@), *turn, slot),
{
    let app = turn.app.as_str();
    let install = unit_install(turn, slot_service_unit_name(app, slot), turn.target.as_str());
    add_required(steps, install);
    add_required(steps, slot_enable(&turn.os, app, slot));
    add_required(steps, slot_action(&turn.os, app, slot, LifecycleAction::Start));
    put_health(steps, &turn.target_manifest, "rollback release has no port");
    match turn.slot {
        Some(old) => {
            add_required(steps, slot_action(&turn.os, app, old, LifecycleAction::Stop));
            add_required(steps, slot_disable(&turn.os, app, old));
            add_required(steps, write_active_slot(turn.root.as_str(), app, slot));
        },
        None => {},
    }
}

/// Restarting the one unit of the application with a release.
pub open spec fn with_unit_restart(
    steps: Seq<StepView>,
    turn: Turn,
    release: Seq<char>,
    manifest: ReleaseManifest,
    missing: Seq<char>,
) -> Seq<StepView> {
    let unit = unit_name(turn.app@, false);
    with_health(
        steps + required(unit_install_plan(turn, Ok(unit), release)) + required(
            enable_plan(turn.os, unit),
        ) + required(action_plan(turn.os, unit, LifecycleAction::Restart)),
        manifest,
        missing,
    )
}

fn put_unit_restart(
    steps: &mut Vec<Step>,
    turn: &Turn,
    release: &str,
    manifest: &ReleaseManifest,
    missing: &str,
)
    ensures
        steps_view(final(steps)@) == with_unit_restart(
            steps_view(old(steps)@),
            *turn,
            release@,
            *manifest,
            missing@,
        ),
{
    let unit = service_unit_name(turn.app.as_str(), false);
    let install = unit_install(turn, Ok(unit.clone()), release);
    add_required(steps, install);
    add_required(steps, enable_service(&turn.os, unit.as_str()));
    add_required(steps, service_action(&turn.os, unit.as_str(), LifecycleAction::Restart));
    put_health(steps, manifest, missing);
}

/// Starting the earlier release of a service.
pub open spec fn with_target_started(steps: Seq<StepView>, turn: Turn) -> Seq<StepView> {
    match turn.other() {
        Some(slot) => with_slot_start(steps, turn, slot),
        None => with_unit_restart(
            if turn.target_manifest.port_explicit && turn.os is Linux {
                with_slots_freed(steps, turn)
            } else {
                steps
            },
            turn,
            turn.target@,
            turn.target_manifest,
            "rollback release has no port"@,
        ),
    }
}

fn put_target_started(steps: &mut Vec<Step>, turn: &Turn)
    requires
        turn.well_formed(),
    ensures
        steps_view(final(steps)@) == with_target_started(steps_view(old(steps)@), *turn),
{
    match turn.other_one() {
        Some(slot) => {
            put_slot_start(steps, turn, slot);
        },
        None => {
            if turn.target_manifest.port_explicit && turn.os.is_linux() {
                put_slots_freed(steps, turn);
            }
            put_unit_restart(
                steps,
                turn,
                turn.target.as_str(),
                &turn.target_manifest,
                "rollback release has no port",
            );
        },
    }
}

pub open spec fn running_unit(turn: Turn) -> Result<Seq<char>, ErrorView> {
    match turn.slot {
        Some(slot) => slot_unit_result(turn.app@, slot),
        None => Ok(unit_name(turn.app@, false)),
    }
}

/// Stopping the service before a static site takes its place.
pub open spec fn with_service_stopped(steps: Seq<StepView>, turn: Turn) -> Seq<StepView> {
    match running_unit(turn) {
        Err(error) => steps.push(StepView::Fail(error)),
        Ok(unit) => steps + attempted(action_plan(turn.os, unit, LifecycleAction::Stop))
            + attempted(disable_plan(turn.os, unit)) + required(
            clear_slot_plan(turn.root@, turn.app@),
        ),
    }
}

fn put_service_stopped(steps: &mut Vec<Step>, turn: &Turn)
    ensures
        steps_view(final(steps)@) == with_service_stopped(steps_view(old(steps)@), *turn),
{
    match unit_for_slot(turn.app.as_str(), turn.slot) {
        Err(error) => {
            add_step(steps, Step::Fail(error));
        },
        Ok(unit) => {
            add_attempted(
                steps,
                service_action(&turn.os, unit.as_str(), LifecycleAction::Stop),
            );
            add_attempted(steps, disable_service(&turn.os, unit.as_str()));
            add_required(steps, clear_active_slot(turn.root.as_str(), turn.app.as_str()));
        },
    }
}

/// Making a release the current one.
pub open spec fn switch_to(turn: Turn, release: Seq<char>, stage: Seq<char>) -> CommandView {
    script_command(stage, switch_script(turn.os, turn.root@, turn.app@, turn.path_of(release)))
}

fn switching(turn: &Turn, release: &str, stage: &str) -> (r: CommandSpec)
    ensures
        r@ == switch_to(*turn, release@, stage@),
{
    script_spec(
        stage,
        switch_current_script(
            &turn.os,
            turn.root.as_str(),
            turn.app.as_str(),
            release_directory(turn.root.as_str(), turn.app.as_str(), release).as_str(),
        ).as_str(),
    )
}

/// Going back: the earlier release becomes the current one and is started.
pub open spec fn back_steps(turn: Turn) -> Seq<StepView> {
    let switched = Seq::empty().push(
        StepView::Send(switch_to(turn, turn.target@, "rollback activation"@)),
    );
    if turn.target_manifest.app_type is Service {
        with_target_started(switched, turn)
    } else if turn.current_manifest.app_type is Service {
        with_service_stopped(switched, turn)
    } else {
        switched
    }
}

fn plan_back(turn: &Turn) -> (r: Vec<Step>)
    requires
        turn.well_formed(),
    ensures
        steps_view(r@) == back_steps(*turn),
{
    let mut steps = no_steps();
    add_step(
        &mut steps,
        Step::Send(switching(turn, turn.target.as_str(), "rollback activation")),
    );
    if matches!(turn.target_manifest.app_type, AppType::Service) {
        put_target_started(&mut steps, turn);
    } else if matches!(turn.current_manifest.app_type, AppType::Service) {
        put_service_stopped(&mut steps, turn);
    }
    steps
}

/// The earlier release was made the current one, started and routed.
#[verifier::opaque]
pub open spec fn gone_back(turn: Turn, a: Log, b: Log, r: Result<(), ErrorView>) -> bool {
    exists|m: Log, x: Result<(), ErrorView>|
        #[trigger] ran(back_steps(turn), None, a, m, x) && match x {
            Err(error) => b == m && r == Err::<(), ErrorView>(error),
            Ok(_) => routes_set(turn, m, b, r),
        }
}

fn go_back<T: DeployHost>(session: &mut Session<T>, turn: &Turn) -> (r: Result<(), CiaoError>)
    requires
        turn.well_formed(),
    ensures
        final(session).peer() == old(session).peer(),
        gone_back(*turn, old(session)@, final(session)@, unit_outcome(r)),
{
    proof {
        reveal(gone_back);
    }
    let steps = plan_back(turn);
    run_steps(session, &NoopProgressReporter, &steps)?;
    set_routes(session, turn)
}

// ---------------------------------------------------------------------------
// Forward again
// ---------------------------------------------------------------------------

/// Starting the release in its old slot again and giving up the other one.
pub open spec fn with_slot_resumed(steps: Seq<StepView>, turn: Turn, slot: char) -> Seq<StepView> {
    let started = steps + required(
        unit_install_plan(turn, slot_unit_result(turn.app@, slot), turn.current@),
    ) + required(slot_enable_plan(turn.os, turn.app@, slot)) + required(
        slot_action_plan(turn.os, turn.app@, slot, LifecycleAction::Start),
    );
    let freed = match turn.other() {
        Some(other) => with_slot_stopped(started, turn.os, turn.app@, other),
        None => started,
    };
    with_health(
        freed + required(record_slot_plan(turn.root@, turn.app@, slot)) + required(
            slot_action_plan(turn.os, turn.app@, slot, LifecycleAction::Restart),
        ),
        turn.current_manifest,
        "active release has no port"@,
    )
}

fn put_slot_resumed(steps: &mut Vec<Step>, turn: &Turn, slot: char)
    requires
        turn.well_formed(),
    ensures
        steps_view(final(steps)@) == with_slot_resumed(steps_view(old(steps)@), *turn, slot),
{
    let app = turn.app.as_str();
    let install = unit_install(turn, slot_service_unit_name(app, slot), turn.current.as_str());
    add_required(steps, install);
    add_required(steps, slot_enable(&turn.os, app, slot));
    add_required(steps, slot_action(&turn.os, app, slot, LifecycleAction::Start));
    match turn.other_one() {
        Some(other) => {
            put_slot_stopped(steps, &turn.os, app, other);
        },
        None => {},
    }
    add_required(steps, write_active_slot(turn.root.as_str(), app, slot));
    add_required(steps, slot_action(&turn.os, app, slot, LifecycleAction::Restart));
    put_health(steps, &turn.current_manifest, "active release has no port");
}

pub open spec fn with_current_resumed(steps: Seq<StepView>, turn: Turn) -> Seq<StepView> {
    if turn.current_manifest.port_explicit && turn.os is Linux {
        with_unit_restart(
            with_slots_freed(steps, turn),
            turn,
            turn.current@,
            turn.current_manifest,
            "active release has no port"@,
        )
    } else {
        match turn.slot {
            Some(slot) => with_slot_resumed(steps, turn, slot),
            None => with_unit_restart(
                steps,
                turn,
                turn.current@,
                turn.current_manifest,
                "active release has no port"@,
            ),
        }
    }
}

fn put_current_resumed(steps: &mut Vec<Step>, turn: &Turn)
    requires
        turn.well_formed(),
    ensures
        steps_view(final(steps)@) == with_current_resumed(steps_view(old(steps)@), *turn),
{
    if turn.current_manifest.port_explicit && turn.os.is_linux() {
        put_slots_freed(steps, turn);
        put_unit_restart(
            steps,
            turn,
            turn.current.as_str(),
            &turn.current_manifest,
            "active release has no port",
        );
    } else {
        match turn.slot {
            Some(slot) => {
                put_slot_resumed(steps, turn, slot);
            },
            None => {
                put_unit_restart(
                    steps,
                    turn,
                    turn.current.as_str(),
                    &turn.current_manifest,
                    "active release has no port",
                );
            },
        }
    }
}

/// Undoing a rollback that failed: the release that was active becomes the
/// current one again and is started.
pub open spec fn forward_steps(turn: Turn) -> Seq<StepView> {
    let switched = Seq::empty().push(
        StepView::Send(
            switch_to(turn, turn.current@, "restore active release after rollback failure"@),
        ),
    );
    if turn.current_manifest.app_type is Service {
        with_current_resumed(switched, turn)
    } else {
        switched
    }
}

fn plan_forward(turn: &Turn) -> (r: Vec<Step>)
    requires
        turn.well_formed(),
    ensures
        steps_view(r@) == forward_steps(*turn),
{
    let mut steps = no_steps();
    add_step(
        &mut steps,
        Step::Send(
            switching(
                turn,
                turn.current.as_str(),
                "restore active release after rollback failure",
            ),
        ),
    );
    if matches!(turn.current_manifest.app_type, AppType::Service) {
        put_current_resumed(&mut steps, turn);
    }
    steps
}

/// The release that was active before a failed rollback was restored.
#[verifier::opaque]
pub open spec fn gone_forward(turn: Turn, a: Log, b: Log, r: Result<(), ErrorView>) -> bool {
    exists|m: Log, x: Result<(), ErrorView>|
        #[trigger] ran(forward_steps(turn), None, a, m, x) && match x {
            Err(error) => b == m && r == Err::<(), ErrorView>(error),
            Ok(_) => routes_set(turn, m, b, r),
        }
}

fn go_forward<T: DeployHost>(session: &mut Session<T>, turn: &Turn) -> (r: Result<(), CiaoError>)
    requires
        turn.well_formed(),
    ensures
        final(session).peer() == old(session).peer(),
        gone_forward(*turn, old(session)@, final(session)@, unit_outcome(r)),
{
    proof {
        reveal(gone_forward);
    }
    let steps = plan_forward(turn);
    run_steps(session, &NoopProgressReporter, &steps)?;
    set_routes(session, turn)
}

/// What a failed rollback says of the release that was active.
pub open spec fn forward_note(current: Seq<char>, x: Result<(), ErrorView>) -> Seq<char> {
    match x {
        Ok(_) => "active release `"@ + current + "` was restored"@,
        Err(error) => "active release `"@ + current + "` may require manual recovery: "@
            + error_message(error),
    }
}

pub open spec fn rollback_failed(
    current: Seq<char>,
    error: ErrorView,
    x: Result<(), ErrorView>,
) -> ErrorView {
    ErrorView::Deployment {
        stage: "rollback"@,
        message: error_message(error) + "; "@ + forward_note(current, x),
        previous_release: current,
    }
}

/// A rollback that failed with `error` was undone.
pub open spec fn rollback_undone(
    turn: Turn,
    error: ErrorView,
    a: Log,
    b: Log,
    r: Result<OperationView, ErrorView>,
) -> bool {
    exists|x: Result<(), ErrorView>|
        #[trigger] gone_forward(turn, a, b, x) && r == Err::<OperationView, ErrorView>(
            rollback_failed(turn.current@, error, x),
        )
}

fn undo_rollback<T: DeployHost>(
    session: &mut Session<T>,
    turn: &Turn,
    error: CiaoError,
) -> (r: Result<OperationResult, CiaoError>)
    requires
        turn.well_formed(),
    ensures
        final(session).peer() == old(session).peer(),
        rollback_undone(*turn, error@, old(session)@, final(session)@, operation_outcome(r)),
{
    let outcome = go_forward(session, turn);
    let ghost view = unit_outcome(outcome);
    let note = match outcome {
        Ok(()) => "active release `".to_owned().concat(turn.current.as_str()).concat(
            "` was restored",
        ),
        Err(other) => "active release `".to_owned().concat(turn.current.as_str()).concat(
            "` may require manual recovery: ",
        ).concat(other.message().as_str()),
    };
    assert(note@ == forward_note(turn.current@, view));
    let failure = CiaoError::Deployment {
        stage: "rollback".to_owned(),
        message: error.message().concat("; ").concat(note.as_str()),
        previous_release: turn.current.clone(),
    };
    assert(failure@ == rollback_failed(turn.current@, error@, view));
    Err(failure)
}

// ---------------------------------------------------------------------------
// After a rollback
// ---------------------------------------------------------------------------

/// The rollback hook of the release that was gone back to.
pub open spec fn target_hook_plan(
    turn: Turn,
    command: Seq<char>,
) -> Result<Seq<CommandView>, ErrorView> {
    match turn.account() {
        Err(error) => Err(error),
        Ok(user) => match cache_path(turn.os, turn.app@) {
            Err(error) => Err(error),
            Ok(home) => remote_hook_plan(
                user,
                command,
                current_path(turn.root@, turn.app@),
                home,
                env_path(turn.root@, turn.app@),
                "run rollback hook"@,
            ),
        },
    }
}

fn target_hook(turn: &Turn, command: &str) -> (r: Result<Vec<CommandSpec>, CiaoError>)
    ensures
        plan_outcome(r) == target_hook_plan(*turn, command@),
{
    let user = turn.user()?;
    let home = build_cache_path(&turn.os, turn.app.as_str())?;
    run_remote_hook(
        user.as_str(),
        command,
        current_link(turn.root.as_str(), turn.app.as_str()).as_str(),
        home.as_str(),
        environment_file(turn.root.as_str(), turn.app.as_str()).as_str(),
        "run rollback hook",
    )
}

pub open spec fn redacted_outcome(x: Result<(), ErrorView>) -> Result<(), ErrorView> {
    match x {
        Ok(_) => Ok(()),
        Err(error) => Err(redacted_hook_error(error)),
    }
}

pub open spec fn target_hook_command_ran(
    turn: Turn,
    command: Seq<char>,
    a: Log,
    b: Log,
    r: Result<(), ErrorView>,
) -> bool {
    exists|x: Result<(), ErrorView>|
        #[trigger] performed(target_hook_plan(turn, command), a, b, x) && r == redacted_outcome(x)
}

pub open spec fn target_hook_ran(turn: Turn, a: Log, b: Log, r: Result<(), ErrorView>) -> bool {
    match turn.target_manifest.hooks.on_rollback {
        None => b == a && r == Ok::<(), ErrorView>(()),
        Some(command) => target_hook_command_ran(turn, command@, a, b, r),
    }
}

fn run_target_hook_command<T: RemoteHost>(
    session: &mut Session<T>,
    turn: &Turn,
    command: &str,
) -> (r: Result<(), CiaoError>)
    ensures
        final(session).peer() == old(session).peer(),
        target_hook_command_ran(
            *turn,
            command@,
            old(session)@,
            final(session)@,
            unit_outcome(r),
        ),
{
    let outcome = perform(session, target_hook(turn, command));
    let ghost view = unit_outcome(outcome);
    match outcome {
        Ok(()) => {
            assert(view is Ok);
            Ok(())
        },
        Err(error) => {
            assert(view == Err::<(), ErrorView>(error@));
            Err(redact_hook_error(error))
        },
    }
}

fn run_target_hook<T: RemoteHost>(session: &mut Session<T>, turn: &Turn) -> (r: Result<
    (),
    CiaoError,
>)
    ensures
        final(session).peer() == old(session).peer(),
        target_hook_ran(*turn, old(session)@, final(session)@, unit_outcome(r)),
{
    match &turn.target_manifest.hooks.on_rollback {
        None => Ok(()),
        Some(command) => run_target_hook_command(session, turn, command.as_str()),
    }
}

pub open spec fn active_after(turn: Turn, x: Result<Option<Seq<char>>, ErrorView>) -> Seq<char> {
    match release_or_none(x) {
        Some(release) => release,
        None => turn.target@,
    }
}

/// The release that the running service is known to serve.
pub open spec fn service_release(x: Result<Option<ServiceView>, ErrorView>) -> Option<Seq<char>> {
    match x {
        Ok(service) => serving_release(service, None),
        Err(_) => None,
    }
}

/// The release that is active after a rollback was looked up: that of the
/// running service, else the one that `current` points to, else the one that
/// was rolled back to. What cannot be read counts as unknown.
pub open spec fn active_looked_up(
    turn: Turn,
    x: Result<Option<ServiceView>, ErrorView>,
    a: Log,
    b: Log,
    active: Seq<char>,
) -> bool {
    match service_release(x) {
        Some(release) => b == a && active == release,
        None => current_looked_up(turn, a, b, active),
    }
}

pub open spec fn current_looked_up(turn: Turn, a: Log, b: Log, active: Seq<char>) -> bool {
    exists|x: Result<Option<Seq<char>>, ErrorView>|
        #[trigger] current_release_read(turn.root@, turn.app@, a, b, x) && active == active_after(
            turn,
            x,
        )
}

pub open spec fn active_read(turn: Turn, a: Log, b: Log, active: Seq<char>) -> bool {
    exists|m: Log, x: Result<Option<ServiceView>, ErrorView>|
        #[trigger] service_asked(turn.os, turn.root@, turn.app@, a, m, x) && active_looked_up(
            turn,
            x,
            m,
            b,
            active,
        )
}

fn look_up_current<T: RemoteHost>(session: &mut Session<T>, turn: &Turn) -> (r: String)
    ensures
        final(session).peer() == old(session).peer(),
        current_looked_up(*turn, old(session)@, final(session)@, r@),
{
    let outcome = read_current_release(session, turn.root.as_str(), turn.app.as_str());
    let ghost view = opt_text_outcome(outcome);
    let active = match outcome {
        Ok(Some(release)) => release,
        Ok(None) => turn.target.clone(),
        Err(_) => turn.target.clone(),
    };
    assert(active@ == active_after(*turn, view));
    active
}

fn read_active<T: RemoteHost>(session: &mut Session<T>, turn: &Turn) -> (r: String)
    ensures
        final(session).peer() == old(session).peer(),
        active_read(*turn, old(session)@, final(session)@, r@),
{
    let ghost before = session@;
    let outcome = session.active_service(&turn.os, turn.root.as_str(), turn.app.as_str());
    let ghost view = service_outcome(outcome);
    let ghost asked = session@;
    assert(service_asked(turn.os, turn.root@, turn.app@, before, asked, view));
    let release = match outcome {
        Ok(service) => {
            assert(view == Ok::<Option<ServiceView>, ErrorView>(opt_service(service)));
            chosen_release(&service, &None)
        },
        Err(_) => None,
    };
    assert(opt_text(release) == service_release(view));
    let active = match release {
        Some(release) => release,
        None => look_up_current(session, turn),
    };
    assert(active_looked_up(*turn, view, asked, session@, active@));
    active
}

/// What a rollback reports.
pub open spec fn rolled_back_view(turn: Turn, active: Seq<char>) -> OperationView {
    OperationView {
        app: turn.app@,
        action: "rollback"@,
        changed: true,
        message: "✓ rolled back "@ + turn.app@ + " from "@ + turn.current@ + " to "@ + turn.target@
            + "; active release `"@ + active + "`"@,
    }
}

pub open spec fn rollback_reported(
    turn: Turn,
    a: Log,
    b: Log,
    r: Result<OperationView, ErrorView>,
) -> bool {
    exists|active: Seq<char>|
        #[trigger] active_read(turn, a, b, active) && r == Ok::<OperationView, ErrorView>(
            rolled_back_view(turn, active),
        )
}

pub open spec fn rollback_finished(
    turn: Turn,
    a: Log,
    b: Log,
    r: Result<OperationView, ErrorView>,
) -> bool {
    exists|m: Log, x: Result<(), ErrorView>|
        #[trigger] target_hook_ran(turn, a, m, x) && match x {
            Err(error) => b == m && r == Err::<OperationView, ErrorView>(error),
            Ok(_) => rollback_reported(turn, m, b, r),
        }
}

fn report_rollback<T: RemoteHost>(session: &mut Session<T>, turn: &Turn) -> (r: Result<
    OperationResult,
    CiaoError,
>)
    ensures
        final(session).peer() == old(session).peer(),
        rollback_reported(*turn, old(session)@, final(session)@, operation_outcome(r)),
{
    let active = read_active(session, turn);
    let report = OperationResult {
        app: turn.app.clone(),
        action: "rollback".to_owned(),
        changed: true,
        message: "✓ rolled back ".to_owned().concat(turn.app.as_str()).concat(" from ").concat(
            turn.current.as_str(),
        ).concat(" to ").concat(turn.target.as_str()).concat("; active release `").concat(
            active.as_str(),
        ).concat("`"),
    };
    assert(report@ == rolled_back_view(*turn, active@));
    Ok(report)
}

/// The rollback was carried out, or undone where it failed.
pub open spec fn turned(turn: Turn, a: Log, b: Log, r: Result<OperationView, ErrorView>) -> bool {
    exists|m: Log, x: Result<(), ErrorView>|
        #[trigger] gone_back(turn, a, m, x) && match x {
            Err(error) => rollback_undone(turn, error, m, b, r),
            Ok(_) => rollback_finished(turn, m, b, r),
        }
}

fn take_turn<T: DeployHost>(session: &mut Session<T>, turn: &Turn) -> (r: Result<
    OperationResult,
    CiaoError,
>)
    requires
        turn.well_formed(),
    ensures
        final(session).peer() == old(session).peer(),
        turned(*turn, old(session)@, final(session)@, operation_outcome(r)),
{
    match go_back(session, turn) {
        Err(error) => undo_rollback(session, turn, error),
        Ok(()) => {
            run_target_hook(session, turn)?;
            report_rollback(session, turn)
        },
    }
}

// ---------------------------------------------------------------------------
// Choosing the release
// ---------------------------------------------------------------------------

pub open spec fn has_release(list: Seq<ReleaseInfo>, release: Seq<char>) -> bool {
    exists|i: int| 0 <= i < list.len() && #[trigger] list[i].release@ == release
}

fn contains_release(list: &Vec<ReleaseInfo>, release: &str) -> (r: bool)
    ensures
        r == has_release(list@, release@),
{
    let mut i: usize = 0;
    while i < list.len()
        invariant
            i <= list@.len(),
            forall|k: int| 0 <= k < i ==> #[trigger] list@[k].release@ != release@,
        decreases list@.len() - i,
    {
        if same_text(list[i].release.as_str(), release) {
            assert(list@[i as int].release@ == release@);
            return true;
        }
        i += 1;
    }
    false
}

pub open spec fn existing_target(
    app: Seq<char>,
    target: Seq<char>,
    x: Result<Vec<ReleaseInfo>, CiaoError>,
) -> Result<Seq<char>, ErrorView> {
    match x {
        Err(error) => Err(error@),
        Ok(list) => if has_release(list@, target) {
            Ok(target)
        } else {
            Err(
                ErrorView::Config(
                    "release `"@ + target + "` does not exist for app `"@ + app + "`"@,
                ),
            )
        },
    }
}

pub open spec fn target_sought(
    app: Seq<char>,
    target: Seq<char>,
    a: Log,
    b: Log,
    r: Result<Seq<char>, ErrorView>,
) -> bool {
    exists|x: Result<Vec<ReleaseInfo>, CiaoError>|
        #[trigger] releases_listed(app, a, b, x) && r == existing_target(app, target, x)
}

pub open spec fn named_target_found(
    app: Seq<char>,
    current: Seq<char>,
    target: Seq<char>,
    a: Log,
    b: Log,
    r: Result<Seq<char>, ErrorView>,
) -> bool {
    match identifier_check("release"@, target) {
        Err(error) => b == a && r == Err::<Seq<char>, ErrorView>(error),
        Ok(_) => if target == current {
            b == a && r == Err::<Seq<char>, ErrorView>(
                ErrorView::Config("cannot roll back to the active release"@),
            )
        } else {
            target_sought(app, target, a, b, r)
        },
    }
}

pub open spec fn newest_target(app: Seq<char>, x: Result<Option<Seq<char>>, ErrorView>) -> Result<
    Seq<char>,
    ErrorView,
> {
    match x {
        Err(error) => Err(error),
        Ok(None) => Err(
            ErrorView::Config("app `"@ + app + "` has no previous release to roll back to"@),
        ),
        Ok(Some(release)) => Ok(release),
    }
}

pub open spec fn newest_target_found(
    root: Seq<char>,
    app: Seq<char>,
    current: Seq<char>,
    a: Log,
    b: Log,
    r: Result<Seq<char>, ErrorView>,
) -> bool {
    exists|x: Result<Option<Seq<char>>, ErrorView>|
        #[trigger] previous_read(root, app, current, a, b, x) && r == newest_target(app, x)
}

/// The release to go back to was found: the named one, or the newest one
/// beside the active one.
pub open spec fn target_found(
    root: Seq<char>,
    app: Seq<char>,
    current: Seq<char>,
    target: Option<Seq<char>>,
    a: Log,
    b: Log,
    r: Result<Seq<char>, ErrorView>,
) -> bool {
    match target {
        Some(target) => named_target_found(app, current, target, a, b, r),
        None => newest_target_found(root, app, current, a, b, r),
    }
}

fn find_named_target<T: RemoteHost>(
    session: &mut Session<T>,
    app: &str,
    current: &str,
    target: &str,
) -> (r: Result<String, CiaoError>)
    ensures
        final(session).peer() == old(session).peer(),
        named_target_found(
            app@,
            current@,
            target@,
            old(session)@,
            final(session)@,
            text_outcome(r),
        ),
{
    validate_identifier("release", target)?;
    if same_text(target, current) {
        return Err(config_error("cannot roll back to the active release"));
    }
    let outcome = list_releases(session, app);
    let ghost view = outcome;
    match outcome {
        Err(error) => {
            assert(existing_target(app@, target@, view) == Err::<Seq<char>, ErrorView>(error@));
            Err(error)
        },
        Ok(list) => {
            if contains_release(&list, target) {
                assert(existing_target(app@, target@, view) == Ok::<Seq<char>, ErrorView>(target@));
                Ok(target.to_owned())
            } else {
                let error = CiaoError::Config(
                    "release `".to_owned().concat(target).concat(
                        "` does not exist for app `",
                    ).concat(app).concat("`"),
                );
                assert(existing_target(app@, target@, view) == Err::<Seq<char>, ErrorView>(error@));
                Err(error)
            }
        },
    }
}

fn find_newest_target<T: RemoteHost>(
    session: &mut Session<T>,
    root: &str,
    app: &str,
    current: &str,
) -> (r: Result<String, CiaoError>)
    ensures
        final(session).peer() == old(session).peer(),
        newest_target_found(
            root@,
            app@,
            current@,
            old(session)@,
            final(session)@,
            text_outcome(r),
        ),
{
    let outcome = previous_release(session, root, app, current);
    let ghost view = opt_text_outcome(outcome);
    match outcome {
        Err(error) => {
            assert(newest_target(app@, view) == Err::<Seq<char>, ErrorView>(error@));
            Err(error)
        },
        Ok(None) => {
            let error = CiaoError::Config(
                "app `".to_owned().concat(app).concat("` has no previous release to roll back to"),
            );
            assert(newest_target(app@, view) == Err::<Seq<char>, ErrorView>(error@));
            Err(error)
        },
        Ok(Some(release)) => {
            assert(newest_target(app@, view) == Ok::<Seq<char>, ErrorView>(release@));
            Ok(release)
        },
    }
}

fn find_target<T: RemoteHost>(
    session: &mut Session<T>,
    root: &str,
    app: &str,
    current: &str,
    target: Option<&str>,
) -> (r: Result<String, CiaoError>)
    ensures
        final(session).peer() == old(session).peer(),
        target_found(
            root@,
            app@,
            current@,
            opt_str(target),
            old(session)@,
            final(session)@,
            text_outcome(r),
        ),
{
    match target {
        Some(target) => find_named_target(session, app, current, target),
        None => find_newest_target(session, root, app, current),
    }
}

// ---------------------------------------------------------------------------
// Rollback
// ---------------------------------------------------------------------------

/// `turn` describes the rollback of an application from one release to
/// another.
pub open spec fn is_turn(
    turn: Turn,
    os: HostOs,
    app: Seq<char>,
    current: Seq<char>,
    current_manifest: ReleaseManifest,
    target: Seq<char>,
    target_manifest: ReleaseManifest,
    slot: Option<char>,
    domain: Option<Seq<char>>,
    destination: Seq<char>,
) -> bool {
    &&& turn.os == os
    &&& turn.root@ == app_root(os)
    &&& turn.app@ == app
    &&& turn.current@ == current
    &&& turn.current_manifest == current_manifest
    &&& turn.target@ == target
    &&& turn.target_manifest == target_manifest
    &&& turn.slot == slot
    &&& opt_text(turn.domain) == domain
    &&& turn.destination@ == destination
}

pub open spec fn turned_at(
    os: HostOs,
    app: Seq<char>,
    current: Seq<char>,
    current_manifest: ReleaseManifest,
    target: Seq<char>,
    target_manifest: ReleaseManifest,
    slot: Option<char>,
    domain: Option<Seq<char>>,
    destination: Seq<char>,
    a: Log,
    b: Log,
    r: Result<OperationView, ErrorView>,
) -> bool {
    exists|turn: Turn|
        #[trigger] is_turn(
            turn,
            os,
            app,
            current,
            current_manifest,
            target,
            target_manifest,
            slot,
            domain,
            destination,
        ) && turned(turn, a, b, r)
}

pub open spec fn turned_with_domain(
    os: HostOs,
    app: Seq<char>,
    current: Seq<char>,
    current_manifest: ReleaseManifest,
    target: Seq<char>,
    target_manifest: ReleaseManifest,
    slot: Option<char>,
    domain: Option<Seq<char>>,
    a: Log,
    b: Log,
    r: Result<OperationView, ErrorView>,
) -> bool {
    exists|m: Log, destination: Seq<char>|
        #[trigger] destination_read(a, m, destination) && turned_at(
            os,
            app,
            current,
            current_manifest,
            target,
            target_manifest,
            slot,
            domain,
            destination,
            m,
            b,
            r,
        )
}

pub open spec fn turned_with_slot(
    os: HostOs,
    app: Seq<char>,
    current: Seq<char>,
    current_manifest: ReleaseManifest,
    target: Seq<char>,
    target_manifest: ReleaseManifest,
    slot: Option<char>,
    a: Log,
    b: Log,
    r: Result<OperationView, ErrorView>,
) -> bool {
    exists|m: Log, x: Result<Option<Seq<char>>, ErrorView>|
        #[trigger] domain_read(app, a, m, x) && match x {
            Err(error) => b == m && r == Err::<OperationView, ErrorView>(error),
            Ok(domain) => turned_with_domain(
                os,
                app,
                current,
                current_manifest,
                target,
                target_manifest,
                slot,
                domain,
                m,
                b,
                r,
            ),
        }
}

/// The slot of the unit of the running service.
pub open spec fn service_slot(service: Option<ServiceView>) -> Option<char> {
    match service {
        Some(service) => slot_in_unit(service.unit),
        None => None,
    }
}

/// The running slot, where the host has slots, was read: that of the running
/// service, else the recorded one.
pub open spec fn host_slot_read(
    os: HostOs,
    app: Seq<char>,
    service: Option<ServiceView>,
    a: Log,
    b: Log,
    r: Result<Option<char>, ErrorView>,
) -> bool {
    if os is Linux {
        match service_slot(service) {
            Some(slot) => b == a && r == Ok::<Option<char>, ErrorView>(Some(slot)),
            None => slot_read(app_root(os), app, a, b, r),
        }
    } else {
        b == a && r == Ok::<Option<char>, ErrorView>(None)
    }
}

#[verifier::opaque]
pub open spec fn turned_with_manifests(
    os: HostOs,
    app: Seq<char>,
    service: Option<ServiceView>,
    current: Seq<char>,
    current_manifest: ReleaseManifest,
    target: Seq<char>,
    target_manifest: ReleaseManifest,
    a: Log,
    b: Log,
    r: Result<OperationView, ErrorView>,
) -> bool {
    exists|m: Log, x: Result<Option<char>, ErrorView>|
        #[trigger] host_slot_read(os, app, service, a, m, x) && match x {
            Err(error) => b == m && r == Err::<OperationView, ErrorView>(error),
            Ok(slot) => turned_with_slot(
                os,
                app,
                current,
                current_manifest,
                target,
                target_manifest,
                slot,
                m,
                b,
                r,
            ),
        }
}

pub open spec fn turned_with_first(
    os: HostOs,
    app: Seq<char>,
    service: Option<ServiceView>,
    current: Seq<char>,
    current_manifest: ReleaseManifest,
    target: Seq<char>,
    a: Log,
    b: Log,
    r: Result<OperationView, ErrorView>,
) -> bool {
    exists|m: Log, x: Result<ReleaseManifest, ErrorView>|
        #[trigger] manifest_read(app_root(os), app, target, a, m, x) && match x {
            Err(error) => b == m && r == Err::<OperationView, ErrorView>(error),
            Ok(manifest) => turned_with_manifests(
                os,
                app,
                service,
                current,
                current_manifest,
                target,
                manifest,
                m,
                b,
                r,
            ),
        }
}

pub open spec fn turned_between(
    os: HostOs,
    app: Seq<char>,
    service: Option<ServiceView>,
    current: Seq<char>,
    target: Seq<char>,
    a: Log,
    b: Log,
    r: Result<OperationView, ErrorView>,
) -> bool {
    exists|m: Log, x: Result<ReleaseManifest, ErrorView>|
        #[trigger] manifest_read(app_root(os), app, current, a, m, x) && match x {
            Err(error) => b == m && r == Err::<OperationView, ErrorView>(error),
            Ok(manifest) => turned_with_first(os, app, service, current, manifest, target, m, b, r),
        }
}

pub open spec fn turned_from(
    os: HostOs,
    app: Seq<char>,
    service: Option<ServiceView>,
    current: Seq<char>,
    target: Option<Seq<char>>,
    a: Log,
    b: Log,
    r: Result<OperationView, ErrorView>,
) -> bool {
    exists|m: Log, x: Result<Seq<char>, ErrorView>|
        #[trigger] target_found(app_root(os), app, current, target, a, m, x) && match x {
            Err(error) => b == m && r == Err::<OperationView, ErrorView>(error),
            Ok(release) => turned_between(os, app, service, current, release, m, b, r),
        }
}

pub open spec fn turned_with_service(
    os: HostOs,
    app: Seq<char>,
    current: Option<Seq<char>>,
    service: Option<ServiceView>,
    target: Option<Seq<char>>,
    a: Log,
    b: Log,
    r: Result<OperationView, ErrorView>,
) -> bool {
    match serving_release(service, current) {
        None => b == a && r == Err::<OperationView, ErrorView>(no_active_release(app)),
        Some(current) => turned_from(os, app, service, current, target, a, b, r),
    }
}

pub open spec fn turned_with_current(
    os: HostOs,
    app: Seq<char>,
    current: Option<Seq<char>>,
    target: Option<Seq<char>>,
    a: Log,
    b: Log,
    r: Result<OperationView, ErrorView>,
) -> bool {
    exists|m: Log, x: Result<Option<ServiceView>, ErrorView>|
        #[trigger] service_asked(os, app_root(os), app, a, m, x) && match x {
            Err(error) => b == m && r == Err::<OperationView, ErrorView>(error),
            Ok(service) => turned_with_service(os, app, current, service, target, m, b, r),
        }
}

pub open spec fn turned_on(
    os: HostOs,
    app: Seq<char>,
    target: Option<Seq<char>>,
    a: Log,
    b: Log,
    r: Result<OperationView, ErrorView>,
) -> bool {
    exists|m: Log, x: Result<Option<Seq<char>>, ErrorView>|
        #[trigger] current_release_read(app_root(os), app, a, m, x) && match x {
            Err(error) => b == m && r == Err::<OperationView, ErrorView>(error),
            Ok(current) => turned_with_current(os, app, current, target, m, b, r),
        }
}

pub open spec fn known_app_rolled_back(
    app: Seq<char>,
    target: Option<Seq<char>>,
    a: Log,
    b: Log,
    r: Result<OperationView, ErrorView>,
) -> bool {
    exists|m: Log, x: Result<HostPlatform, ErrorView>|
        #[trigger] inspected(a, m, x) && match x {
            Err(error) => b == m && r == Err::<OperationView, ErrorView>(error),
            Ok(platform) => turned_on(platform.os, app, target, m, b, r),
        }
}

/// An application was rolled back to a release, or to the one before.
#[verifier::opaque]
pub open spec fn rolled_back(
    app: Seq<char>,
    target: Option<Seq<char>>,
    a: Log,
    b: Log,
    r: Result<OperationView, ErrorView>,
) -> bool {
    match identifier_check("app name"@, app) {
        Err(error) => b == a && r == Err::<OperationView, ErrorView>(error),
        Ok(_) => known_app_rolled_back(app, target, a, b, r),
    }
}

fn read_host_slot<T: RemoteHost>(
    session: &mut Session<T>,
    os: &HostOs,
    app: &str,
    service: &Option<ActiveService>,
) -> (r: Result<Option<char>, CiaoError>)
    ensures
        final(session).peer() == old(session).peer(),
        host_slot_read(
            *os,
            app@,
            opt_service(*service),
            old(session)@,
            final(session)@,
            plain_outcome(r),
        ),
        r matches Ok(Some(slot)) ==> is_slot(slot),
{
    if !os.is_linux() {
        return Ok(None);
    }
    let told = match service {
        Some(service) => active_slot_from_unit(service.unit.as_str()),
        None => None,
    };
    if told.is_some() {
        return Ok(told);
    }
    let root = host_app_root(os);
    read_active_slot(session, root.as_str(), app)
}

fn turn_with_domain<T: DeployHost>(
    session: &mut Session<T>,
    os: &HostOs,
    app: &str,
    current: &str,
    current_manifest: ReleaseManifest,
    target: &str,
    target_manifest: ReleaseManifest,
    slot: Option<char>,
    domain: Option<String>,
) -> (r: Result<OperationResult, CiaoError>)
    requires
        slot matches Some(slot) ==> is_slot(slot),
    ensures
        final(session).peer() == old(session).peer(),
        turned_with_domain(
            *os,
            app@,
            current@,
            current_manifest,
            target@,
            target_manifest,
            slot,
            opt_text(domain),
            old(session)@,
            final(session)@,
            operation_outcome(r),
        ),
{
    let ghost before = session@;
    let destination = session.destination();
    assert(destination_read(before, session@, destination@));
    let turn = Turn {
        os: os.clone(),
        root: host_app_root(os),
        app: app.to_owned(),
        current: current.to_owned(),
        current_manifest,
        target: target.to_owned(),
        target_manifest,
        slot,
        domain,
        destination,
    };
    assert(is_turn(
        turn,
        *os,
        app@,
        current@,
        current_manifest,
        target@,
        target_manifest,
        slot,
        opt_text(domain),
        destination@,
    ));
    take_turn(session, &turn)
}

fn turn_with_manifests<T: DeployHost>(
    session: &mut Session<T>,
    os: &HostOs,
    app: &str,
    service: &Option<ActiveService>,
    current: &str,
    current_manifest: ReleaseManifest,
    target: &str,
    target_manifest: ReleaseManifest,
) -> (r: Result<OperationResult, CiaoError>)
    ensures
        final(session).peer() == old(session).peer(),
        turned_with_manifests(
            *os,
            app@,
            opt_service(*service),
            current@,
            current_manifest,
            target@,
            target_manifest,
            old(session)@,
            final(session)@,
            operation_outcome(r),
        ),
{
    proof {
        reveal(turned_with_manifests);
    }
    let slot = read_host_slot(session, os, app, service)?;
    let domain = read_existing_domain(session, app)?;
    turn_with_domain(
        session,
        os,
        app,
        current,
        current_manifest,
        target,
        target_manifest,
        slot,
        domain,
    )
}

fn turn_from<T: DeployHost>(
    session: &mut Session<T>,
    os: &HostOs,
    app: &str,
    service: &Option<ActiveService>,
    current: &str,
    target: Option<&str>,
) -> (r: Result<OperationResult, CiaoError>)
    ensures
        final(session).peer() == old(session).peer(),
        turned_from(
            *os,
            app@,
            opt_service(*service),
            current@,
            opt_str(target),
            old(session)@,
            final(session)@,
            operation_outcome(r),
        ),
{
    let root = host_app_root(os);
    let target = find_target(session, root.as_str(), app, current, target)?;
    let current_manifest = read_release_manifest(session, root.as_str(), app, current)?;
    let target_manifest = read_release_manifest(session, root.as_str(), app, target.as_str())?;
    turn_with_manifests(
        session,
        os,
        app,
        service,
        current,
        current_manifest,
        target.as_str(),
        target_manifest,
    )
}

fn turn_on<T: DeployHost>(
    session: &mut Session<T>,
    os: &HostOs,
    app: &str,
    target: Option<&str>,
) -> (r: Result<OperationResult, CiaoError>)
    ensures
        final(session).peer() == old(session).peer(),
        turned_on(
            *os,
            app@,
            opt_str(target),
            old(session)@,
            final(session)@,
            operation_outcome(r),
        ),
{
    let root = host_app_root(os);
    let current = read_current_release(session, root.as_str(), app)?;
    turn_with_current(session, os, app, &current, target)
}

fn turn_with_current<T: DeployHost>(
    session: &mut Session<T>,
    os: &HostOs,
    app: &str,
    current: &Option<String>,
    target: Option<&str>,
) -> (r: Result<OperationResult, CiaoError>)
    ensures
        final(session).peer() == old(session).peer(),
        turned_with_current(
            *os,
            app@,
            opt_text(*current),
            opt_str(target),
            old(session)@,
            final(session)@,
            operation_outcome(r),
        ),
{
    let root = host_app_root(os);
    let outcome = session.active_service(os, root.as_str(), app);
    let ghost view = service_outcome(outcome);
    match outcome {
        Err(error) => {
            assert(view == Err::<Option<ServiceView>, ErrorView>(error@));
            Err(error)
        },
        Ok(service) => {
            assert(view == Ok::<Option<ServiceView>, ErrorView>(opt_service(service)));
            match chosen_release(&service, current) {
                None => Err(no_active_release_error(app)),
                Some(current) => turn_from(session, os, app, &service, current.as_str(), target),
            }
        },
    }
}

/// Rolls an application back to a release, or to the newest one beside the
/// active one. Where that fails, the active release is restored.
///
/// The host itself tells which service runs, brings the Funnel route in line
/// and brings `current` in line: the contract fixes when it is asked to and what
/// follows from its answer, and says nothing of how it does so.
pub fn rollback_to<T: DeployHost>(
    session: &mut Session<T>,
    app: &str,
    target_release: Option<&str>,
) -> (r: Result<OperationResult, CiaoError>)
    ensures
        final(session).peer() == old(session).peer(),
        rolled_back(
            app@,
            opt_str(target_release),
            old(session)@,
            final(session)@,
            operation_outcome(r),
        ),
{
    proof {
        reveal(rolled_back);
    }
    validate_identifier("app name", app)?;
    let platform = session.inspect()?;
    turn_on(session, &platform.os, app, target_release)
}

pub fn rollback<T: DeployHost>(session: &mut Session<T>, app: &str) -> (r: Result<
    OperationResult,
    CiaoError,
>)
    ensures
        final(session).peer() == old(session).peer(),
        rolled_back(app@, None, old(session)@, final(session)@, operation_outcome(r)),
{
    rollback_to(session, app, None)
}

} // verus!
