//! Deployments: from the project on this computer to the active release on a
//! host, with the way back where something fails.

use crate::calendar::{names_release, release_id};
use crate::candidate::{
    candidate_slot, choose_slot, manifest_plan, no_steps, plan_restart, plan_service_release,
    plan_slot_switch, plan_static_release, plan_upload, put_hook, put_slot_stopped, put_step,
    restart_steps, service_steps, slot_action, slot_action_plan, slot_remove, slot_remove_plan,
    slot_switch_steps, static_steps, upload_steps, with_hook, with_slot_stopped, with_step,
    write_manifest, Job,
};
use crate::cloudflare::{sync_cloudflare_tunnel_if_present, tunnel_synced};
use crate::domain::{
    ciao_domain_configured, cloudflare_domain_configured, configure_domain,
    configure_domain_for_cloudflare, configure_release_caddy_route, configure_remote_ciao_domain,
    domain_configured, local_domain, local_domain_result, local_fragment_path, local_route_path,
    release_route_configured, remove_domain_fragment, remove_fragment_plan,
};
use crate::error::{
    error_message, opt_text_outcome, plain_outcome, text_outcome, unit_outcome, CiaoError,
    ErrorView,
};
use crate::hooks::{local_hook_ran, remote_hook_plan, run_local_hook, run_remote_hook};
use crate::host::{
    destination_read, ensure_runtime, host_prepared, prepare_host_for_deploy,
    prepare_host_for_deploy_interactive, runtime_plan,
};
use crate::manifest::{manifest_rendered, ReleaseManifest};
use crate::model::{
    AppType, DeployHostMode, DeployResult, HealthConfig, HostOs, HostPlatform, LifecycleAction,
    ProjectPlan, PORT_END, PORT_START,
};
use crate::observe::{
    current_release_read, domain_read, existing_domain_is_plain_http, read_current_release,
    read_existing_domain, scheme_read,
};
use crate::ports::{allocate_port, port_allocated};
use crate::redact::{redact_hook_error, redacted_hook_error};
use crate::release::{
    acquire_deploy_lock, acquire_lock_plan, app_dir, app_directory, app_root, build_cache_path,
    cache_path, cleanup_plan, cleanup_release, current_link, current_path, domain_health_plan,
    ensure_remote_layout, harden_plan, harden_release, host_app_root, layout_plan, prune_script,
    prune_script_text, recover_lock, recover_lock_plan, release_deploy_lock, release_lock_plan,
    remote_domain_healthcheck, restore_plan, service_account, service_user, switch_current,
};
use crate::remote::{
    clock_read, funnel_synced, inspected, script_command, script_spec, CommandSpec, CommandView,
    DeployHost, Exchange, Log, NoopProgressReporter, Notice, ProgressReporter, RemoteHost,
    Session,
};
use crate::services::{
    action_plan, clear_active_slot, clear_slot_plan, disable_plan, disable_service, is_slot,
    read_active_slot, record_slot_plan, remove_plan, remove_service, service_action,
    service_unit_name, slot_outcome, slot_read, slot_service_unit_name, slot_unit_result,
    unit_name, write_active_slot,
};
use crate::shell::{shell_quote, shell_quoted};
use crate::steps::{
    add_attempted, attempted, close_step, closed_with, one, open_step, opened, perform, performed,
    plan_outcome, ran, run_steps, single_plan, steps_view, Step, StepView,
};
use crate::text::{borrow_opt, copy_opt, opt_str, opt_text, same_text};
use crate::validate::{domain_check, identifier_check, validate_domain, validate_identifier};
use vstd::prelude::*;

verus! {

// ---------------------------------------------------------------------------
// Results
// ---------------------------------------------------------------------------

/// The outcome of a deployment as plain data.
pub struct DeployView {
    pub app: Seq<char>,
    pub release: Seq<char>,
    pub previous_release: Option<Seq<char>>,
    pub port: Option<u16>,
    pub active: bool,
    pub dry_run: bool,
    pub message: Seq<char>,
}

impl View for DeployResult {
    type V = DeployView;

    open spec fn view(&self) -> DeployView {
        DeployView {
            app: self.app@,
            release: self.release@,
            previous_release: opt_text(self.previous_release),
            port: self.port,
            active: self.active,
            dry_run: self.dry_run,
            message: self.message@,
        }
    }
}

pub open spec fn deploy_outcome(r: Result<DeployResult, CiaoError>) -> Result<DeployView, ErrorView> {
    match r {
        Ok(result) => Ok(result@),
        Err(error) => Err(error@),
    }
}

/// The port that a dry run announces: a fixed one as it is, any other where it
/// is in the range of service ports, and else the first of the range.
pub open spec fn planned_port(plan: ProjectPlan) -> Option<u16> {
    if plan.app_type is Static {
        None
    } else if plan.deploy_port_explicit {
        plan.port
    } else {
        match plan.port {
            Some(port) => if PORT_START <= port <= PORT_END {
                Some(port)
            } else {
                Some(PORT_START)
            },
            None => Some(PORT_START),
        }
    }
}

pub open spec fn dry_run_steps(app_type: AppType) -> Seq<char> {
    if app_type is Static {
        "upload, install dependencies, build, verify static output, activate current, update local Ciao route"@
    } else {
        "upload, install dependencies, build, start candidate, healthcheck, activate service, update local Ciao route"@
    }
}

pub open spec fn route_note(domain: Option<Seq<char>>) -> Seq<char> {
    match domain {
        Some(domain) => ", route "@ + domain,
        None => Seq::empty(),
    }
}

/// What a dry run says.
pub open spec fn dry_run_view(
    plan: ProjectPlan,
    release: Seq<char>,
    domain: Option<Seq<char>>,
) -> DeployView {
    DeployView {
        app: plan.name@,
        release,
        previous_release: None,
        port: planned_port(plan),
        active: false,
        dry_run: true,
        message: "Detected runtime: "@ + plan.runtime.label() + "\nWould: "@ + dry_run_steps(
            plan.app_type,
        ) + route_note(domain),
    }
}

pub fn dry_run_result(
    plan: &ProjectPlan,
    release: String,
    domain: Option<&str>,
) -> (r: DeployResult)
    ensures
        r@ == dry_run_view(*plan, release@, opt_str(domain)),
{
    let is_static = matches!(plan.app_type, AppType::Static);
    let steps = if is_static {
        "upload, install dependencies, build, verify static output, activate current, update local Ciao route"
    } else {
        "upload, install dependencies, build, start candidate, healthcheck, activate service, update local Ciao route"
    };
    let port: Option<u16> = if is_static {
        None
    } else if plan.deploy_port_explicit {
        plan.port
    } else {
        match plan.port {
            Some(port) => if PORT_START <= port && port <= PORT_END {
                Some(port)
            } else {
                Some(PORT_START)
            },
            None => Some(PORT_START),
        }
    };
    let note = match domain {
        Some(domain) => ", route ".to_owned().concat(domain),
        None => String::new(),
    };
    DeployResult {
        app: plan.name.clone(),
        release,
        previous_release: None,
        port,
        active: false,
        dry_run: true,
        message: "Detected runtime: ".to_owned().concat(plan.runtime.name()).concat(
            "\nWould: ",
        ).concat(steps).concat(note.as_str()),
    }
}

// ---------------------------------------------------------------------------
// What is on the host
// ---------------------------------------------------------------------------

/// What a deployment finds on its host.
pub struct Situation {
    pub os: HostOs,
    pub previous: Option<String>,
    pub retained: Option<String>,
    pub port: Option<u16>,
    pub slot: Option<char>,
}

pub struct SituationView {
    pub os: HostOs,
    pub previous: Option<Seq<char>>,
    pub retained: Option<Seq<char>>,
    pub port: Option<u16>,
    pub slot: Option<char>,
}

impl View for Situation {
    type V = SituationView;

    open spec fn view(&self) -> SituationView {
        SituationView {
            os: self.os,
            previous: opt_text(self.previous),
            retained: opt_text(self.retained),
            port: self.port,
            slot: self.slot,
        }
    }
}

pub open spec fn situation_outcome(r: Result<Situation, CiaoError>) -> Result<SituationView, ErrorView> {
    match r {
        Ok(situation) => Ok(situation@),
        Err(error) => Err(error@),
    }
}

/// The slot that is running, where the application has slots, was read.
pub open spec fn running_slot_read(
    os: HostOs,
    plan: ProjectPlan,
    a: Log,
    b: Log,
    r: Result<Option<char>, ErrorView>,
) -> bool {
    if plan.app_type is Service && os is Linux {
        slot_read(app_root(os), plan.name@, a, b, r)
    } else {
        b == a && r == Ok::<Option<char>, ErrorView>(None)
    }
}

/// A port was chosen, unless the site is static.
pub open spec fn service_port_chosen(
    os: HostOs,
    plan: ProjectPlan,
    previous: Option<Seq<char>>,
    a: Log,
    b: Log,
    r: Result<Option<u16>, ErrorView>,
) -> bool {
    if plan.app_type is Static {
        b == a && r == Ok::<Option<u16>, ErrorView>(None)
    } else {
        exists|port: Result<u16, ErrorView>|
            #[trigger] port_allocated(
                app_root(os),
                plan.name@,
                previous,
                plan.port,
                plan.deploy_port_explicit,
                a,
                b,
                port,
            ) && r == some_port(port)
    }
}

pub open spec fn some_port(port: Result<u16, ErrorView>) -> Result<Option<u16>, ErrorView> {
    match port {
        Ok(port) => Ok(Some(port)),
        Err(error) => Err(error),
    }
}

pub open spec fn situation_with_slot(
    os: HostOs,
    previous: Option<Seq<char>>,
    retained: Option<Seq<char>>,
    port: Option<u16>,
    slot: Result<Option<char>, ErrorView>,
) -> Result<SituationView, ErrorView> {
    match slot {
        Err(error) => Err(error),
        Ok(slot) => Ok(SituationView { os, previous, retained, port, slot }),
    }
}

pub open spec fn situation_after_port(
    os: HostOs,
    plan: ProjectPlan,
    previous: Option<Seq<char>>,
    retained: Option<Seq<char>>,
    port: Option<u16>,
    a: Log,
    b: Log,
    r: Result<SituationView, ErrorView>,
) -> bool {
    exists|slot: Result<Option<char>, ErrorView>|
        #[trigger] running_slot_read(os, plan, a, b, slot) && r == situation_with_slot(
            os,
            previous,
            retained,
            port,
            slot,
        )
}

pub open spec fn situation_after_domain(
    os: HostOs,
    plan: ProjectPlan,
    previous: Option<Seq<char>>,
    retained: Option<Seq<char>>,
    a: Log,
    b: Log,
    r: Result<SituationView, ErrorView>,
) -> bool {
    exists|m: Log, x: Result<Option<u16>, ErrorView>|
        #[trigger] service_port_chosen(os, plan, previous, a, m, x) && match x {
            Err(error) => b == m && r == Err::<SituationView, ErrorView>(error),
            Ok(port) => situation_after_port(os, plan, previous, retained, port, m, b, r),
        }
}

pub open spec fn situation_after_release(
    os: HostOs,
    plan: ProjectPlan,
    previous: Option<Seq<char>>,
    a: Log,
    b: Log,
    r: Result<SituationView, ErrorView>,
) -> bool {
    exists|m: Log, x: Result<Option<Seq<char>>, ErrorView>|
        #[trigger] domain_read(plan.name@, a, m, x) && match x {
            Err(error) => b == m && r == Err::<SituationView, ErrorView>(error),
            Ok(retained) => situation_after_domain(os, plan, previous, retained, m, b, r),
        }
}

/// The active release, the domain, a free port and the running slot were
/// looked up.
#[verifier::opaque]
pub open spec fn situation_read(
    os: HostOs,
    plan: ProjectPlan,
    a: Log,
    b: Log,
    r: Result<SituationView, ErrorView>,
) -> bool {
    exists|m: Log, x: Result<Option<Seq<char>>, ErrorView>|
        #[trigger] current_release_read(app_root(os), plan.name@, a, m, x) && match x {
            Err(error) => b == m && r == Err::<SituationView, ErrorView>(error),
            Ok(previous) => situation_after_release(os, plan, previous, m, b, r),
        }
}

fn choose_service_port<T: RemoteHost>(
    session: &mut Session<T>,
    os: &HostOs,
    plan: &ProjectPlan,
    previous: Option<&str>,
) -> (r: Result<Option<u16>, CiaoError>)
    ensures
        final(session).peer() == old(session).peer(),
        service_port_chosen(
            *os,
            *plan,
            opt_str(previous),
            old(session)@,
            final(session)@,
            plain_outcome(r),
        ),
        r matches Ok(port) ==> (port is Some <==> plan.app_type is Service),
{
    if matches!(plan.app_type, AppType::Static) {
        return Ok(None);
    }
    let root = host_app_root(os);
    let port = allocate_port(
        session,
        root.as_str(),
        plan.name.as_str(),
        previous,
        plan.port,
        plan.deploy_port_explicit,
    )?;
    Ok(Some(port))
}

fn read_running_slot<T: RemoteHost>(
    session: &mut Session<T>,
    os: &HostOs,
    plan: &ProjectPlan,
) -> (r: Result<Option<char>, CiaoError>)
    ensures
        final(session).peer() == old(session).peer(),
        running_slot_read(*os, *plan, old(session)@, final(session)@, plain_outcome(r)),
        r matches Ok(Some(slot)) ==> is_slot(slot),
{
    if matches!(plan.app_type, AppType::Service) && os.is_linux() {
        let root = host_app_root(os);
        read_active_slot(session, root.as_str(), plan.name.as_str())
    } else {
        Ok(None)
    }
}

fn read_situation<T: RemoteHost>(
    session: &mut Session<T>,
    os: &HostOs,
    plan: &ProjectPlan,
) -> (r: Result<Situation, CiaoError>)
    ensures
        final(session).peer() == old(session).peer(),
        situation_read(*os, *plan, old(session)@, final(session)@, situation_outcome(r)),
        r matches Ok(situation) ==> {
            &&& situation.os == *os
            &&& situation.port is Some <==> plan.app_type is Service
            &&& situation.slot matches Some(slot) ==> is_slot(slot)
        },
{
    proof {
        reveal(situation_read);
    }
    let root = host_app_root(os);
    let previous = read_current_release(session, root.as_str(), plan.name.as_str())?;
    let retained = read_existing_domain(session, plan.name.as_str())?;
    let port = choose_service_port(session, os, plan, borrow_opt(&previous))?;
    let slot = read_running_slot(session, os, plan)?;
    Ok(Situation { os: os.clone(), previous, retained, port, slot })
}

// ---------------------------------------------------------------------------
// Activation in a slot
// ---------------------------------------------------------------------------

pub open spec fn or_false(x: Result<bool, ErrorView>) -> bool {
    match x {
        Ok(value) => value,
        Err(_) => false,
    }
}

/// The slot of the release took over once its routes were written.
#[verifier::opaque]
pub open spec fn slot_switched(
    job: Job,
    health: HealthConfig,
    port: u16,
    slot: char,
    active: Option<char>,
    a: Log,
    b: Log,
    r: Result<(), ErrorView>,
) -> bool {
    ran(slot_switch_steps(job, health, port, slot, active), None, a, b, r)
}

/// The public domain was routed to the release, and its slot took over.
pub open spec fn public_routed(
    job: Job,
    health: HealthConfig,
    port: u16,
    slot: char,
    active: Option<char>,
    domain: Seq<char>,
    plain: bool,
    a: Log,
    b: Log,
    r: Result<(), ErrorView>,
) -> bool {
    exists|m: Log, x: Result<(), ErrorView>|
        #[trigger] release_route_configured(
            job.os,
            job.root@,
            job.app@,
            job.release@,
            domain,
            plain,
            a,
            m,
            x,
        ) && match x {
            Err(error) => b == m && r == Err::<(), ErrorView>(error),
            Ok(_) => slot_switched(job, health, port, slot, active, m, b, r),
        }
}

pub open spec fn public_routed_by_scheme(
    job: Job,
    health: HealthConfig,
    port: u16,
    slot: char,
    active: Option<char>,
    domain: Seq<char>,
    a: Log,
    b: Log,
    r: Result<(), ErrorView>,
) -> bool {
    exists|m: Log, plain: Result<bool, ErrorView>|
        #[trigger] scheme_read(job.app@, a, m, plain) && public_routed(
            job,
            health,
            port,
            slot,
            active,
            domain,
            or_false(plain),
            m,
            b,
            r,
        )
}

pub open spec fn domain_routed(
    job: Job,
    health: HealthConfig,
    port: u16,
    slot: char,
    active: Option<char>,
    domain: Option<Seq<char>>,
    a: Log,
    b: Log,
    r: Result<(), ErrorView>,
) -> bool {
    match domain {
        None => slot_switched(job, health, port, slot, active, a, b, r),
        Some(domain) => public_routed_by_scheme(job, health, port, slot, active, domain, a, b, r),
    }
}

pub open spec fn local_routed(
    job: Job,
    health: HealthConfig,
    port: u16,
    slot: char,
    active: Option<char>,
    domain: Option<Seq<char>>,
    local: Seq<char>,
    a: Log,
    b: Log,
    r: Result<(), ErrorView>,
) -> bool {
    exists|m: Log, x: Result<(), ErrorView>|
        #[trigger] release_route_configured(
            job.os,
            job.root@,
            job.app@,
            job.release@,
            local,
            true,
            a,
            m,
            x,
        ) && match x {
            Err(error) => b == m && r == Err::<(), ErrorView>(error),
            Ok(_) => domain_routed(job, health, port, slot, active, domain, m, b, r),
        }
}

pub open spec fn hardened_release_routed(
    job: Job,
    health: HealthConfig,
    port: u16,
    slot: char,
    active: Option<char>,
    domain: Option<Seq<char>>,
    a: Log,
    b: Log,
    r: Result<(), ErrorView>,
) -> bool {
    match local_domain_result(job.app@) {
        Err(error) => b == a && r == Err::<(), ErrorView>(error),
        Ok(local) => local_routed(job, health, port, slot, active, domain, local, a, b, r),
    }
}

/// The release in a slot was activated: its files became read-only, its routes
/// were written, and only then its slot took over.
pub open spec fn slot_activated(
    job: Job,
    health: HealthConfig,
    port: u16,
    slot: char,
    active: Option<char>,
    domain: Option<Seq<char>>,
    a: Log,
    b: Log,
    r: Result<(), ErrorView>,
) -> bool {
    exists|m: Log, x: Result<(), ErrorView>|
        #[trigger] performed(harden_plan(job.os, job.path()), a, m, x) && match x {
            Err(error) => b == m && r == Err::<(), ErrorView>(error),
            Ok(_) => hardened_release_routed(job, health, port, slot, active, domain, m, b, r),
        }
}

fn switch_slot<T: DeployHost>(
    session: &mut Session<T>,
    job: &Job,
    health: &HealthConfig,
    port: u16,
    slot: char,
    active: Option<char>,
) -> (r: Result<(), CiaoError>)
    ensures
        final(session).peer() == old(session).peer(),
        slot_switched(
            *job,
            *health,
            port,
            slot,
            active,
            old(session)@,
            final(session)@,
            unit_outcome(r),
        ),
{
    proof {
        reveal(slot_switched);
    }
    let steps = plan_slot_switch(job, health, port, slot, active);
    run_steps(session, &NoopProgressReporter, &steps)
}

fn route_public_domain<T: DeployHost>(
    session: &mut Session<T>,
    job: &Job,
    health: &HealthConfig,
    port: u16,
    slot: char,
    active: Option<char>,
    domain: &str,
) -> (r: Result<(), CiaoError>)
    ensures
        final(session).peer() == old(session).peer(),
        public_routed_by_scheme(
            *job,
            *health,
            port,
            slot,
            active,
            domain@,
            old(session)@,
            final(session)@,
            unit_outcome(r),
        ),
{
    let plain = match existing_domain_is_plain_http(session, job.app.as_str()) {
        Ok(plain) => plain,
        Err(_) => false,
    };
    configure_release_caddy_route(
        session,
        &job.os,
        job.root.as_str(),
        job.app.as_str(),
        job.release.as_str(),
        domain,
        plain,
    )?;
    switch_slot(session, job, health, port, slot, active)
}

fn activate_slot<T: DeployHost>(
    session: &mut Session<T>,
    job: &Job,
    health: &HealthConfig,
    port: u16,
    slot: char,
    active: Option<char>,
    domain: Option<&str>,
) -> (r: Result<(), CiaoError>)
    ensures
        final(session).peer() == old(session).peer(),
        slot_activated(
            *job,
            *health,
            port,
            slot,
            active,
            opt_str(domain),
            old(session)@,
            final(session)@,
            unit_outcome(r),
        ),
{
    perform(session, harden_release(&job.os, job.directory().as_str()))?;
    let local = local_domain(job.app.as_str())?;
    configure_release_caddy_route(
        session,
        &job.os,
        job.root.as_str(),
        job.app.as_str(),
        job.release.as_str(),
        local.as_str(),
        true,
    )?;
    match domain {
        None => switch_slot(session, job, health, port, slot, active),
        Some(domain) => route_public_domain(session, job, health, port, slot, active, domain),
    }
}

/// The release in a slot was activated inside an open progress step.
pub open spec fn slot_activation_in_step(
    job: Job,
    health: HealthConfig,
    port: u16,
    slot: char,
    active: Option<char>,
    domain: Option<Seq<char>>,
    a: Log,
    b: Log,
    r: Result<(), ErrorView>,
) -> bool {
    exists|m: Log, x: Result<(), ErrorView>|
        #[trigger] slot_activated(job, health, port, slot, active, domain, a, m, x) && closed_with("activate service release"@, x, m, b, r)
}

/// The release in a slot was activated as the progress step "activate service release".
pub open spec fn slot_activation_step(
    job: Job,
    health: HealthConfig,
    port: u16,
    slot: char,
    active: Option<char>,
    domain: Option<Seq<char>>,
    a: Log,
    b: Log,
    r: Result<(), ErrorView>,
) -> bool {
    exists|m: Log, x: Result<(), ErrorView>|
        #[trigger] opened("activate service release"@, a, m, x) && match x {
            Err(error) => b == m && r == Err::<(), ErrorView>(error),
            Ok(_) => slot_activation_in_step(job, health, port, slot, active, domain, m, b, r),
        }
}

fn run_slot_activation_step<T: DeployHost, P: ProgressReporter>(
    session: &mut Session<T>,
    reporter: &P,
    job: &Job,
    health: &HealthConfig,
    port: u16,
    slot: char,
    active: Option<char>,
    domain: Option<&str>,
) -> (r: Result<(), CiaoError>)
    ensures
        final(session).peer() == old(session).peer(),
        slot_activation_step(
            *job,
            *health,
            port,
            slot,
            active,
            opt_str(domain),
            old(session)@,
            final(session)@,
            unit_outcome(r),
        ),
{
    open_step(session, reporter, "activate service release")?;
    let outcome = activate_slot(session, job, health, port, slot, active, domain);
    close_step(session, reporter, "activate service release", outcome)
}

/// A service was activated: in a slot beside the running one, or by a restart
/// of the one unit.
#[verifier::opaque]
pub open spec fn service_activated(
    job: Job,
    health: HealthConfig,
    port: u16,
    slot: Option<char>,
    fixed: bool,
    active: Option<char>,
    domain: Option<Seq<char>>,
    a: Log,
    b: Log,
    r: Result<(), ErrorView>,
) -> bool {
    match slot {
        Some(slot) => slot_activation_step(job, health, port, slot, active, domain, a, b, r),
        None => ran(restart_steps(job, health, port, fixed), None, a, b, r),
    }
}

fn activate_service<T: DeployHost, P: ProgressReporter>(
    session: &mut Session<T>,
    reporter: &P,
    job: &Job,
    health: &HealthConfig,
    port: u16,
    slot: Option<char>,
    fixed: bool,
    active: Option<char>,
    domain: Option<&str>,
) -> (r: Result<(), CiaoError>)
    ensures
        final(session).peer() == old(session).peer(),
        service_activated(
            *job,
            *health,
            port,
            slot,
            fixed,
            active,
            opt_str(domain),
            old(session)@,
            final(session)@,
            unit_outcome(r),
        ),
{
    proof {
        reveal(service_activated);
    }
    match slot {
        Some(slot) => run_slot_activation_step(
            session,
            reporter,
            job,
            health,
            port,
            slot,
            active,
            domain,
        ),
        None => {
            let steps = plan_restart(job, health, port, fixed);
            run_steps(session, reporter, &steps)
        },
    }
}

// ---------------------------------------------------------------------------
// The release itself
// ---------------------------------------------------------------------------

/// A service was built and tried.
#[verifier::opaque]
pub open spec fn service_tried(
    job: Job,
    plan: ProjectPlan,
    port: u16,
    slot: Option<char>,
    a: Log,
    b: Log,
    r: Result<(), ErrorView>,
) -> bool {
    ran(service_steps(job, plan, port, slot, plan.deploy_port_explicit), None, a, b, r)
}

fn try_service<T: DeployHost, P: ProgressReporter>(
    session: &mut Session<T>,
    reporter: &P,
    job: &Job,
    plan: &ProjectPlan,
    port: u16,
    slot: Option<char>,
) -> (r: Result<(), CiaoError>)
    ensures
        final(session).peer() == old(session).peer(),
        service_tried(*job, *plan, port, slot, old(session)@, final(session)@, unit_outcome(r)),
{
    proof {
        reveal(service_tried);
    }
    let steps = plan_service_release(job, plan, port, slot, plan.deploy_port_explicit);
    run_steps(session, reporter, &steps)
}

/// A service was built, tried and then activated.
pub open spec fn service_released(
    job: Job,
    plan: ProjectPlan,
    port: u16,
    active: Option<char>,
    domain: Option<Seq<char>>,
    a: Log,
    b: Log,
    r: Result<(), ErrorView>,
) -> bool {
    let fixed = plan.deploy_port_explicit;
    let slot = candidate_slot(job.os, plan.app_type, fixed, active);
    exists|m: Log, x: Result<(), ErrorView>|
        #[trigger] service_tried(job, plan, port, slot, a, m, x) && match x {
            Err(error) => b == m && r == Err::<(), ErrorView>(error),
            Ok(_) => service_activated(
                job,
                plan.health,
                port,
                slot,
                fixed,
                active,
                domain,
                m,
                b,
                r,
            ),
        }
}

fn release_service<T: DeployHost, P: ProgressReporter>(
    session: &mut Session<T>,
    reporter: &P,
    job: &Job,
    plan: &ProjectPlan,
    port: u16,
    active: Option<char>,
    domain: Option<&str>,
) -> (r: Result<(), CiaoError>)
    ensures
        final(session).peer() == old(session).peer(),
        service_released(
            *job,
            *plan,
            port,
            active,
            opt_str(domain),
            old(session)@,
            final(session)@,
            unit_outcome(r),
        ),
{
    let fixed = plan.deploy_port_explicit;
    let slot = choose_slot(&job.os, plan.app_type, fixed, active);
    try_service(session, reporter, job, plan, port, slot)?;
    activate_service(session, reporter, job, &plan.health, port, slot, fixed, active, domain)
}

/// The uploaded source was built and activated.
pub open spec fn built_and_activated(
    job: Job,
    plan: ProjectPlan,
    port: Option<u16>,
    active: Option<char>,
    domain: Option<Seq<char>>,
    a: Log,
    b: Log,
    r: Result<(), ErrorView>,
) -> bool {
    match port {
        None => ran(static_steps(job, plan), None, a, b, r),
        Some(port) => service_released(job, plan, port, active, domain, a, b, r),
    }
}

fn build_and_activate<T: DeployHost, P: ProgressReporter>(
    session: &mut Session<T>,
    reporter: &P,
    job: &Job,
    plan: &ProjectPlan,
    port: Option<u16>,
    active: Option<char>,
    domain: Option<&str>,
) -> (r: Result<(), CiaoError>)
    ensures
        final(session).peer() == old(session).peer(),
        built_and_activated(
            *job,
            *plan,
            port,
            active,
            opt_str(domain),
            old(session)@,
            final(session)@,
            unit_outcome(r),
        ),
{
    match port {
        None => {
            let steps = plan_static_release(job, plan);
            run_steps(session, reporter, &steps)
        },
        Some(port) => release_service(session, reporter, job, plan, port, active, domain),
    }
}

/// `m` is the manifest of the release that a plan makes at a time.
pub open spec fn manifest_for(
    m: ReleaseManifest,
    job: Job,
    source: Seq<char>,
    plan: ProjectPlan,
    port: Option<u16>,
    created: u64,
) -> bool {
    &&& m.release@ == job.release@
    &&& m.source_path@ == source
    &&& m == (ReleaseManifest {
        release: m.release,
        app: plan.name,
        runtime: plan.runtime,
        app_type: plan.app_type,
        port,
        port_explicit: plan.deploy_port_explicit,
        source_path: m.source_path,
        install_command: plan.install_command,
        build_command: plan.build_command,
        run_command: plan.run_command,
        static_directory: plan.static_directory,
        health: plan.health,
        public: plan.public,
        funnel: plan.funnel,
        created_at_unix: created,
        hooks: plan.hooks,
    })
}

/// The text of the manifest of a release.
pub open spec fn manifest_text_for(
    job: Job,
    source: Seq<char>,
    plan: ProjectPlan,
    port: Option<u16>,
    created: u64,
    text: Result<Seq<char>, ErrorView>,
) -> bool {
    exists|m: ReleaseManifest|
        #[trigger] manifest_for(m, job, source, plan, port, created) && manifest_rendered(m, text)
}

fn manifest_text(
    job: &Job,
    source: &str,
    plan: &ProjectPlan,
    port: Option<u16>,
    created: u64,
) -> (r: Result<String, CiaoError>)
    ensures
        manifest_text_for(*job, source@, *plan, port, created, text_outcome(r)),
{
    let mut manifest = ReleaseManifest::from_plan(job.release.clone(), source, plan, created);
    manifest.port = port;
    assert(manifest_for(manifest, *job, source@, *plan, port, created));
    manifest.to_toml()
}

/// The manifest was written, and the release built and activated.
pub open spec fn released_with_manifest(
    job: Job,
    plan: ProjectPlan,
    port: Option<u16>,
    active: Option<char>,
    domain: Option<Seq<char>>,
    text: Result<Seq<char>, ErrorView>,
    a: Log,
    b: Log,
    r: Result<(), ErrorView>,
) -> bool {
    exists|m: Log, x: Result<(), ErrorView>|
        #[trigger] ran(
            with_step(Seq::empty(), "write release manifest"@, manifest_plan(job, text)),
            None,
            a,
            m,
            x,
        ) && match x {
            Err(error) => b == m && r == Err::<(), ErrorView>(error),
            Ok(_) => built_and_activated(job, plan, port, active, domain, m, b, r),
        }
}

pub open spec fn released_at(
    job: Job,
    source: Seq<char>,
    plan: ProjectPlan,
    port: Option<u16>,
    active: Option<char>,
    domain: Option<Seq<char>>,
    created: u64,
    a: Log,
    b: Log,
    r: Result<(), ErrorView>,
) -> bool {
    exists|text: Result<Seq<char>, ErrorView>|
        #[trigger] manifest_text_for(job, source, plan, port, created, text)
            && released_with_manifest(job, plan, port, active, domain, text, a, b, r)
}

pub open spec fn released_after_upload(
    job: Job,
    source: Seq<char>,
    plan: ProjectPlan,
    port: Option<u16>,
    active: Option<char>,
    domain: Option<Seq<char>>,
    a: Log,
    b: Log,
    r: Result<(), ErrorView>,
) -> bool {
    exists|m: Log, seconds: u64, nanos: u32|
        #[trigger] clock_read(a, m, seconds, nanos) && released_at(
            job,
            source,
            plan,
            port,
            active,
            domain,
            seconds,
            m,
            b,
            r,
        )
}

/// The source was uploaded, described by a manifest, built and activated.
#[verifier::opaque]
pub open spec fn released(
    job: Job,
    source: Seq<char>,
    plan: ProjectPlan,
    port: Option<u16>,
    active: Option<char>,
    domain: Option<Seq<char>>,
    a: Log,
    b: Log,
    r: Result<(), ErrorView>,
) -> bool {
    exists|m: Log, x: Result<(), ErrorView>|
        #[trigger] ran(upload_steps(job, source), None, a, m, x) && match x {
            Err(error) => b == m && r == Err::<(), ErrorView>(error),
            Ok(_) => released_after_upload(job, source, plan, port, active, domain, m, b, r),
        }
}

fn release_with_manifest<T: DeployHost, P: ProgressReporter>(
    session: &mut Session<T>,
    reporter: &P,
    job: &Job,
    plan: &ProjectPlan,
    port: Option<u16>,
    active: Option<char>,
    domain: Option<&str>,
    text: Result<String, CiaoError>,
) -> (r: Result<(), CiaoError>)
    ensures
        final(session).peer() == old(session).peer(),
        released_with_manifest(
            *job,
            *plan,
            port,
            active,
            opt_str(domain),
            text_outcome(text),
            old(session)@,
            final(session)@,
            unit_outcome(r),
        ),
{
    let mut steps = no_steps();
    let manifest = write_manifest(job, text);
    put_step(&mut steps, "write release manifest", manifest);
    run_steps(session, reporter, &steps)?;
    build_and_activate(session, reporter, job, plan, port, active, domain)
}

fn make_release<T: DeployHost, P: ProgressReporter>(
    session: &mut Session<T>,
    reporter: &P,
    job: &Job,
    source: &str,
    plan: &ProjectPlan,
    port: Option<u16>,
    active: Option<char>,
    domain: Option<&str>,
) -> (r: Result<(), CiaoError>)
    ensures
        final(session).peer() == old(session).peer(),
        released(
            *job,
            source@,
            *plan,
            port,
            active,
            opt_str(domain),
            old(session)@,
            final(session)@,
            unit_outcome(r),
        ),
{
    proof {
        reveal(released);
    }
    let steps = plan_upload(job, source);
    run_steps(session, reporter, &steps)?;
    let (created, _) = session.now();
    let text = manifest_text(job, source, plan, port, created);
    release_with_manifest(session, reporter, job, plan, port, active, domain, text)
}

// ---------------------------------------------------------------------------
// After the activation
// ---------------------------------------------------------------------------

/// The local domain was routed inside an open progress step.
pub open spec fn ciao_domain_in_step(
    app: Seq<char>,
    a: Log,
    b: Log,
    r: Result<(), ErrorView>,
) -> bool {
    exists|m: Log, x: Result<(), ErrorView>|
        #[trigger] ciao_domain_configured(app, a, m, x) && closed_with("configure local Ciao domain"@, x, m, b, r)
}

/// The local domain was routed as the progress step "configure local Ciao domain".
pub open spec fn ciao_domain_step(
    app: Seq<char>,
    a: Log,
    b: Log,
    r: Result<(), ErrorView>,
) -> bool {
    exists|m: Log, x: Result<(), ErrorView>|
        #[trigger] opened("configure local Ciao domain"@, a, m, x) && match x {
            Err(error) => b == m && r == Err::<(), ErrorView>(error),
            Ok(_) => ciao_domain_in_step(app, m, b, r),
        }
}

fn run_ciao_domain_step<T: RemoteHost, P: ProgressReporter>(
    session: &mut Session<T>,
    reporter: &P,
    app: &str,
) -> (r: Result<(), CiaoError>)
    ensures
        final(session).peer() == old(session).peer(),
        ciao_domain_step(app@, old(session)@, final(session)@, unit_outcome(r)),
{
    open_step(session, reporter, "configure local Ciao domain")?;
    let outcome = configure_remote_ciao_domain(session, app);
    close_step(session, reporter, "configure local Ciao domain", outcome)
}

/// The Funnel route was brought in step inside an open progress step.
pub open spec fn funnel_in_step(
    app: Seq<char>,
    a: Log,
    b: Log,
    r: Result<(), ErrorView>,
) -> bool {
    exists|m: Log, x: Result<(), ErrorView>|
        #[trigger] funnel_synced(app, a, m, x) && closed_with("synchronize Funnel route"@, x, m, b, r)
}

/// The Funnel route was brought in step as the progress step "synchronize Funnel
/// route".
pub open spec fn funnel_step(app: Seq<char>, a: Log, b: Log, r: Result<(), ErrorView>) -> bool {
    exists|m: Log, x: Result<(), ErrorView>|
        #[trigger] opened("synchronize Funnel route"@, a, m, x) && match x {
            Err(error) => b == m && r == Err::<(), ErrorView>(error),
            Ok(_) => funnel_in_step(app, m, b, r),
        }
}

fn run_funnel_step<T: RemoteHost, P: ProgressReporter>(
    session: &mut Session<T>,
    reporter: &P,
    app: &str,
) -> (r: Result<(), CiaoError>)
    ensures
        final(session).peer() == old(session).peer(),
        funnel_step(app@, old(session)@, final(session)@, unit_outcome(r)),
{
    open_step(session, reporter, "synchronize Funnel route")?;
    let outcome = session.sync_funnel_route(app);
    close_step(session, reporter, "synchronize Funnel route", outcome)
}

/// The tunnel was brought in step inside an open progress step.
pub open spec fn tunnel_in_step(
    app: Seq<char>,
    a: Log,
    b: Log,
    r: Result<bool, ErrorView>,
) -> bool {
    exists|m: Log, x: Result<bool, ErrorView>|
        #[trigger] tunnel_synced(app, a, m, x) && closed_with("synchronize Cloudflare Tunnel"@, x, m, b, r)
}

/// The tunnel was brought in step as the progress step "synchronize Cloudflare Tunnel".
pub open spec fn tunnel_step(app: Seq<char>, a: Log, b: Log, r: Result<bool, ErrorView>) -> bool {
    exists|m: Log, x: Result<(), ErrorView>|
        #[trigger] opened("synchronize Cloudflare Tunnel"@, a, m, x) && match x {
            Err(error) => b == m && r == Err::<bool, ErrorView>(error),
            Ok(_) => tunnel_in_step(app, m, b, r),
        }
}

fn run_tunnel_step<T: RemoteHost, P: ProgressReporter>(
    session: &mut Session<T>,
    reporter: &P,
    app: &str,
) -> (r: Result<bool, CiaoError>)
    ensures
        final(session).peer() == old(session).peer(),
        tunnel_step(app@, old(session)@, final(session)@, plain_outcome(r)),
{
    open_step(session, reporter, "synchronize Cloudflare Tunnel")?;
    let outcome = sync_cloudflare_tunnel_if_present(session, app);
    close_step(session, reporter, "synchronize Cloudflare Tunnel", outcome)
}

/// The domain of an application was routed, by the scheme that it has.
pub open spec fn routed_by_scheme(
    app: Seq<char>,
    domain: Seq<char>,
    plain: bool,
    a: Log,
    b: Log,
    r: Result<(), ErrorView>,
) -> bool {
    if plain {
        cloudflare_domain_configured(app, domain, a, b, r)
    } else {
        domain_configured(app, domain, a, b, r)
    }
}

fn route_by_scheme<T: RemoteHost>(
    session: &mut Session<T>,
    app: &str,
    domain: &str,
    plain: bool,
) -> (r: Result<(), CiaoError>)
    ensures
        final(session).peer() == old(session).peer(),
        routed_by_scheme(app@, domain@, plain, old(session)@, final(session)@, unit_outcome(r)),
{
    if plain {
        configure_domain_for_cloudflare(session, app, domain)
    } else {
        configure_domain(session, app, domain)
    }
}

/// The public domain of an application was routed to its active release.
pub open spec fn public_domain_routed(
    app: Seq<char>,
    domain: Seq<char>,
    a: Log,
    b: Log,
    r: Result<(), ErrorView>,
) -> bool {
    exists|m: Log, x: Result<bool, ErrorView>|
        #[trigger] scheme_read(app, a, m, x) && match x {
            Err(error) => b == m && r == Err::<(), ErrorView>(error),
            Ok(plain) => routed_by_scheme(app, domain, plain, m, b, r),
        }
}

fn configure_public_domain<T: RemoteHost>(
    session: &mut Session<T>,
    app: &str,
    domain: &str,
) -> (r: Result<(), CiaoError>)
    ensures
        final(session).peer() == old(session).peer(),
        public_domain_routed(app@, domain@, old(session)@, final(session)@, unit_outcome(r)),
{
    let plain = existing_domain_is_plain_http(session, app)?;
    route_by_scheme(session, app, domain, plain)
}

/// The public domain was routed inside an open progress step.
pub open spec fn public_domain_in_step(
    app: Seq<char>,
    domain: Seq<char>,
    a: Log,
    b: Log,
    r: Result<(), ErrorView>,
) -> bool {
    exists|m: Log, x: Result<(), ErrorView>|
        #[trigger] public_domain_routed(app, domain, a, m, x) && closed_with("configure domain"@, x, m, b, r)
}

/// The public domain was routed as the progress step "configure domain".
pub open spec fn public_domain_step(
    app: Seq<char>,
    domain: Seq<char>,
    a: Log,
    b: Log,
    r: Result<(), ErrorView>,
) -> bool {
    exists|m: Log, x: Result<(), ErrorView>|
        #[trigger] opened("configure domain"@, a, m, x) && match x {
            Err(error) => b == m && r == Err::<(), ErrorView>(error),
            Ok(_) => public_domain_in_step(app, domain, m, b, r),
        }
}

fn run_public_domain_step<T: RemoteHost, P: ProgressReporter>(
    session: &mut Session<T>,
    reporter: &P,
    app: &str,
    domain: &str,
) -> (r: Result<(), CiaoError>)
    ensures
        final(session).peer() == old(session).peer(),
        public_domain_step(app@, domain@, old(session)@, final(session)@, unit_outcome(r)),
{
    open_step(session, reporter, "configure domain")?;
    let outcome = configure_public_domain(session, app, domain);
    close_step(session, reporter, "configure domain", outcome)
}

/// The public domain, where there is one, was routed and asked whether it
/// answers.
pub open spec fn exposed(
    app: Seq<char>,
    domain: Option<Seq<char>>,
    health: HealthConfig,
    a: Log,
    b: Log,
    r: Result<(), ErrorView>,
) -> bool {
    match domain {
        None => b == a && r == Ok::<(), ErrorView>(()),
        Some(domain) => domain_exposed(app, domain, health, a, b, r),
    }
}

pub open spec fn domain_exposed(
    app: Seq<char>,
    domain: Seq<char>,
    health: HealthConfig,
    a: Log,
    b: Log,
    r: Result<(), ErrorView>,
) -> bool {
    exists|m: Log, x: Result<(), ErrorView>|
        #[trigger] public_domain_step(app, domain, a, m, x) && match x {
            Err(error) => b == m && r == Err::<(), ErrorView>(error),
            Ok(_) => ran(
                with_step(Seq::empty(), "domain smoke check"@, domain_health_plan(domain, health)),
                None,
                m,
                b,
                r,
            ),
        }
}

fn expose_domain<T: DeployHost, P: ProgressReporter>(
    session: &mut Session<T>,
    reporter: &P,
    app: &str,
    domain: &str,
    health: &HealthConfig,
) -> (r: Result<(), CiaoError>)
    ensures
        final(session).peer() == old(session).peer(),
        domain_exposed(app@, domain@, *health, old(session)@, final(session)@, unit_outcome(r)),
{
    run_public_domain_step(session, reporter, app, domain)?;
    let mut steps = no_steps();
    let check = remote_domain_healthcheck(domain, health);
    put_step(&mut steps, "domain smoke check", check);
    run_steps(session, reporter, &steps)
}

fn expose<T: DeployHost, P: ProgressReporter>(
    session: &mut Session<T>,
    reporter: &P,
    app: &str,
    domain: Option<&str>,
    health: &HealthConfig,
) -> (r: Result<(), CiaoError>)
    ensures
        final(session).peer() == old(session).peer(),
        exposed(app@, opt_str(domain), *health, old(session)@, final(session)@, unit_outcome(r)),
{
    match domain {
        None => Ok(()),
        Some(domain) => expose_domain(session, reporter, app, domain, health),
    }
}

pub open spec fn name_or_nothing(release: Option<Seq<char>>) -> Seq<char> {
    match release {
        Some(release) => release,
        None => Seq::empty(),
    }
}

pub open spec fn prune_command(
    root: Seq<char>,
    app: Seq<char>,
    keep: u64,
    current: Option<Seq<char>>,
) -> CommandView {
    script_command(
        "prune old releases"@,
        prune_script_text(root, app, keep, name_or_nothing(current)),
    )
}

/// Releases beyond the newest `keep` and the current one were removed.
pub open spec fn pruned(
    root: Seq<char>,
    app: Seq<char>,
    keep: u64,
    a: Log,
    b: Log,
    r: Result<(), ErrorView>,
) -> bool {
    exists|m: Log, x: Result<Option<Seq<char>>, ErrorView>|
        #[trigger] current_release_read(root, app, a, m, x) && match x {
            Err(error) => b == m && r == Err::<(), ErrorView>(error),
            Ok(current) => performed(one(prune_command(root, app, keep, current)), m, b, r),
        }
}

pub fn prune_releases<T: RemoteHost>(
    session: &mut Session<T>,
    root: &str,
    app: &str,
    keep: u64,
) -> (r: Result<(), CiaoError>)
    ensures
        final(session).peer() == old(session).peer(),
        pruned(root@, app@, keep, old(session)@, final(session)@, unit_outcome(r)),
{
    let current = match read_current_release(session, root, app)? {
        Some(release) => release,
        None => String::new(),
    };
    let script = prune_script(root, app, keep, current.as_str());
    perform(session, single_plan(script_spec("prune old releases", script.as_str())))
}

/// Old releases were removed inside an open progress step.
pub open spec fn prune_in_step(
    root: Seq<char>,
    app: Seq<char>,
    keep: u64,
    a: Log,
    b: Log,
    r: Result<(), ErrorView>,
) -> bool {
    exists|m: Log, x: Result<(), ErrorView>|
        #[trigger] pruned(root, app, keep, a, m, x) && closed_with("prune old releases"@, x, m, b, r)
}

/// Old releases were removed as the progress step "prune old releases".
pub open spec fn prune_step(
    root: Seq<char>,
    app: Seq<char>,
    keep: u64,
    a: Log,
    b: Log,
    r: Result<(), ErrorView>,
) -> bool {
    exists|m: Log, x: Result<(), ErrorView>|
        #[trigger] opened("prune old releases"@, a, m, x) && match x {
            Err(error) => b == m && r == Err::<(), ErrorView>(error),
            Ok(_) => prune_in_step(root, app, keep, m, b, r),
        }
}

fn run_prune_step<T: RemoteHost, P: ProgressReporter>(
    session: &mut Session<T>,
    reporter: &P,
    root: &str, app: &str, keep: u64,
) -> (r: Result<(), CiaoError>)
    ensures
        final(session).peer() == old(session).peer(),
        prune_step(root@, app@, keep, old(session)@, final(session)@, unit_outcome(r)),
{
    open_step(session, reporter, "prune old releases")?;
    let outcome = prune_releases(session, root, app, keep);
    close_step(session, reporter, "prune old releases", outcome)
}

pub open spec fn finished_after_tunnel(
    job: Job,
    plan: ProjectPlan,
    domain: Option<Seq<char>>,
    a: Log,
    b: Log,
    r: Result<(), ErrorView>,
) -> bool {
    exists|m: Log, x: Result<(), ErrorView>|
        #[trigger] exposed(job.app@, domain, plan.health, a, m, x) && match x {
            Err(error) => b == m && r == Err::<(), ErrorView>(error),
            Ok(_) => prune_step(job.root@, job.app@, plan.release_keep as u64, m, b, r),
        }
}

pub open spec fn finished_after_funnel(
    job: Job,
    plan: ProjectPlan,
    domain: Option<Seq<char>>,
    a: Log,
    b: Log,
    r: Result<(), ErrorView>,
) -> bool {
    exists|m: Log, x: Result<bool, ErrorView>|
        #[trigger] tunnel_step(job.app@, a, m, x) && match x {
            Err(error) => b == m && r == Err::<(), ErrorView>(error),
            Ok(_) => finished_after_tunnel(job, plan, domain, m, b, r),
        }
}

pub open spec fn finished_after_domain(
    job: Job,
    plan: ProjectPlan,
    domain: Option<Seq<char>>,
    a: Log,
    b: Log,
    r: Result<(), ErrorView>,
) -> bool {
    exists|m: Log, x: Result<(), ErrorView>|
        #[trigger] funnel_step(job.app@, a, m, x) && match x {
            Err(error) => b == m && r == Err::<(), ErrorView>(error),
            Ok(_) => finished_after_funnel(job, plan, domain, m, b, r),
        }
}

pub open spec fn finished_after_hook(
    job: Job,
    plan: ProjectPlan,
    domain: Option<Seq<char>>,
    a: Log,
    b: Log,
    r: Result<(), ErrorView>,
) -> bool {
    exists|m: Log, x: Result<(), ErrorView>|
        #[trigger] ciao_domain_step(job.app@, a, m, x) && match x {
            Err(error) => b == m && r == Err::<(), ErrorView>(error),
            Ok(_) => finished_after_domain(job, plan, domain, m, b, r),
        }
}

/// The hook after the activation, where the project has one.
pub open spec fn post_activate_steps(job: Job, plan: ProjectPlan) -> Seq<StepView> {
    with_hook(
        Seq::empty(),
        job,
        "post-activate hook"@,
        plan.hooks.post_activate,
        "run post-activate hook"@,
    )
}

/// What follows the activation: the hook, the local domain, the Funnel route, the
/// tunnel, the public domain and the removal of old releases.
#[verifier::opaque]
pub open spec fn finished(
    job: Job,
    plan: ProjectPlan,
    domain: Option<Seq<char>>,
    a: Log,
    b: Log,
    r: Result<(), ErrorView>,
) -> bool {
    exists|m: Log, x: Result<(), ErrorView>|
        #[trigger] ran(post_activate_steps(job, plan), None, a, m, x) && match x {
            Err(error) => b == m && r == Err::<(), ErrorView>(error),
            Ok(_) => finished_after_hook(job, plan, domain, m, b, r),
        }
}

fn finish_after_tunnel<T: DeployHost, P: ProgressReporter>(
    session: &mut Session<T>,
    reporter: &P,
    job: &Job,
    plan: &ProjectPlan,
    domain: Option<&str>,
) -> (r: Result<(), CiaoError>)
    ensures
        final(session).peer() == old(session).peer(),
        finished_after_tunnel(
            *job,
            *plan,
            opt_str(domain),
            old(session)@,
            final(session)@,
            unit_outcome(r),
        ),
{
    expose(session, reporter, job.app.as_str(), domain, &plan.health)?;
    run_prune_step(
        session,
        reporter,
        job.root.as_str(),
        job.app.as_str(),
        plan.release_keep as u64,
    )
}

fn finish_after_hook<T: DeployHost, P: ProgressReporter>(
    session: &mut Session<T>,
    reporter: &P,
    job: &Job,
    plan: &ProjectPlan,
    domain: Option<&str>,
) -> (r: Result<(), CiaoError>)
    ensures
        final(session).peer() == old(session).peer(),
        finished_after_hook(
            *job,
            *plan,
            opt_str(domain),
            old(session)@,
            final(session)@,
            unit_outcome(r),
        ),
{
    run_ciao_domain_step(session, reporter, job.app.as_str())?;
    run_funnel_step(session, reporter, job.app.as_str())?;
    run_tunnel_step(session, reporter, job.app.as_str())?;
    finish_after_tunnel(session, reporter, job, plan, domain)
}

fn finish_release<T: DeployHost, P: ProgressReporter>(
    session: &mut Session<T>,
    reporter: &P,
    job: &Job,
    plan: &ProjectPlan,
    domain: Option<&str>,
) -> (r: Result<(), CiaoError>)
    ensures
        final(session).peer() == old(session).peer(),
        finished(
            *job,
            *plan,
            opt_str(domain),
            old(session)@,
            final(session)@,
            unit_outcome(r),
        ),
{
    proof {
        reveal(finished);
    }
    let mut steps = no_steps();
    put_hook(
        &mut steps,
        job,
        "post-activate hook",
        &plan.hooks.post_activate,
        "run post-activate hook",
    );
    assert(steps_view(steps@) == post_activate_steps(*job, *plan));
    run_steps(session, reporter, &steps)?;
    finish_after_hook(session, reporter, job, plan, domain)
}

/// All the work on a release, from the upload to the removal of old ones.
#[verifier::opaque]
pub open spec fn worked(
    job: Job,
    source: Seq<char>,
    plan: ProjectPlan,
    port: Option<u16>,
    active: Option<char>,
    domain: Option<Seq<char>>,
    a: Log,
    b: Log,
    r: Result<(), ErrorView>,
) -> bool {
    exists|m: Log, x: Result<(), ErrorView>|
        #[trigger] released(job, source, plan, port, active, domain, a, m, x) && match x {
            Err(error) => b == m && r == Err::<(), ErrorView>(error),
            Ok(_) => finished(job, plan, domain, m, b, r),
        }
}

fn work<T: DeployHost, P: ProgressReporter>(
    session: &mut Session<T>,
    reporter: &P,
    job: &Job,
    source: &str,
    plan: &ProjectPlan,
    port: Option<u16>,
    active: Option<char>,
    domain: Option<&str>,
) -> (r: Result<(), CiaoError>)
    ensures
        final(session).peer() == old(session).peer(),
        worked(
            *job,
            source@,
            *plan,
            port,
            active,
            opt_str(domain),
            old(session)@,
            final(session)@,
            unit_outcome(r),
        ),
{
    proof {
        reveal(worked);
    }
    make_release(session, reporter, job, source, plan, port, active, domain)?;
    finish_release(session, reporter, job, plan, domain)
}

// ---------------------------------------------------------------------------
// The way back
// ---------------------------------------------------------------------------

pub open spec fn slot_or_none(x: Result<Option<char>, ErrorView>) -> Option<char> {
    match x {
        Ok(slot) => slot,
        Err(_) => None,
    }
}

pub open spec fn release_or_none(x: Result<Option<Seq<char>>, ErrorView>) -> Option<Seq<char>> {
    match x {
        Ok(release) => release,
        Err(_) => None,
    }
}

/// The slot that is recorded as active was read again, as far as it could be.
pub open spec fn slot_read_again(
    os: HostOs,
    root: Seq<char>,
    app: Seq<char>,
    a: Log,
    b: Log,
    r: Option<char>,
) -> bool {
    if os is Linux {
        exists|x: Result<Option<char>, ErrorView>|
            #[trigger] slot_read(root, app, a, b, x) && r == slot_or_none(x)
    } else {
        b == a && r is None
    }
}

fn read_slot_again<T: RemoteHost>(
    session: &mut Session<T>,
    os: &HostOs,
    root: &str,
    app: &str,
) -> (r: Option<char>)
    ensures
        final(session).peer() == old(session).peer(),
        slot_read_again(*os, root@, app@, old(session)@, final(session)@, r),
{
    if os.is_linux() {
        let outcome = read_active_slot(session, root, app);
        let ghost view = slot_outcome(outcome);
        let slot: Option<char> = match outcome {
            Ok(slot) => slot,
            Err(_) => None,
        };
        assert(slot == slot_or_none(view));
        slot
    } else {
        None
    }
}

/// The unit under which a failed release may still run.
pub open spec fn candidate_unit(os: HostOs, app: Seq<char>, slot: Option<char>) -> Seq<char> {
    match slot {
        Some(slot) => if os is Linux && slot_unit_result(app, slot) is Ok {
            slot_unit_result(app, slot)->Ok_0
        } else {
            unit_name(app, true)
        },
        None => unit_name(app, true),
    }
}

fn failed_unit(os: &HostOs, app: &str, slot: Option<char>) -> (r: String)
    ensures
        r@ == candidate_unit(*os, app@, slot),
{
    match slot {
        Some(slot) => if os.is_linux() {
            match slot_service_unit_name(app, slot) {
                Ok(unit) => unit,
                Err(_) => service_unit_name(app, true),
            }
        } else {
            service_unit_name(app, true)
        },
        None => service_unit_name(app, true),
    }
}

/// Removing the unit of a failed release, unless it became the active one.
pub open spec fn discard_steps(
    job: Job,
    slot: Option<char>,
    active: Option<char>,
) -> Seq<StepView> {
    if active != slot {
        Seq::empty() + attempted(remove_plan(job.os, candidate_unit(job.os, job.app@, slot)))
    } else {
        Seq::empty()
    }
}

fn plan_discard(job: &Job, slot: Option<char>, active: Option<char>) -> (r: Vec<Step>)
    ensures
        steps_view(r@) == discard_steps(*job, slot, active),
{
    let mut steps = no_steps();
    if active != slot {
        let unit = failed_unit(&job.os, job.app.as_str(), slot);
        add_attempted(&mut steps, remove_service(&job.os, unit.as_str()));
    }
    steps
}

/// Going back to the unit or slot that was running.
pub open spec fn with_service_restored(
    steps: Seq<StepView>,
    job: Job,
    fixed: bool,
    slot: Option<char>,
    active: Option<char>,
) -> Seq<StepView> {
    let unit = unit_name(job.app@, false);
    if job.os is Linux {
        match active {
            Some(old) => {
                let stopped = if fixed {
                    steps + attempted(action_plan(job.os, unit, LifecycleAction::Stop)) + attempted(
                        disable_plan(job.os, unit),
                    )
                } else {
                    steps
                };
                let freed = match slot {
                    Some(slot) => with_slot_stopped(stopped, job.os, job.app@, slot),
                    None => stopped,
                };
                if slot_unit_result(job.app@, old) is Ok {
                    freed + attempted(
                        slot_action_plan(job.os, job.app@, old, LifecycleAction::Start),
                    ) + attempted(record_slot_plan(job.root@, job.app@, old))
                } else {
                    freed
                }
            },
            None => steps + attempted(action_plan(job.os, unit, LifecycleAction::Restart))
                + attempted(clear_slot_plan(job.root@, job.app@)),
        }
    } else {
        steps + attempted(action_plan(job.os, unit, LifecycleAction::Restart))
    }
}

fn put_service_restored(
    steps: &mut Vec<Step>,
    job: &Job,
    fixed: bool,
    slot: Option<char>,
    active: Option<char>,
)
    ensures
        steps_view(final(steps)@) == with_service_restored(
            steps_view(old(steps)@),
            *job,
            fixed,
            slot,
            active,
        ),
{
    let unit = service_unit_name(job.app.as_str(), false);
    if job.os.is_linux() {
        match active {
            Some(old) => {
                if fixed {
                    add_attempted(
                        steps,
                        service_action(&job.os, unit.as_str(), LifecycleAction::Stop),
                    );
                    add_attempted(steps, disable_service(&job.os, unit.as_str()));
                }
                match slot {
                    Some(slot) => {
                        put_slot_stopped(steps, &job.os, job.app.as_str(), slot);
                    },
                    None => {},
                }
                if slot_service_unit_name(job.app.as_str(), old).is_ok() {
                    add_attempted(
                        steps,
                        slot_action(&job.os, job.app.as_str(), old, LifecycleAction::Start),
                    );
                    add_attempted(
                        steps,
                        write_active_slot(job.root.as_str(), job.app.as_str(), old),
                    );
                }
            },
            None => {
                add_attempted(
                    steps,
                    service_action(&job.os, unit.as_str(), LifecycleAction::Restart),
                );
                add_attempted(steps, clear_active_slot(job.root.as_str(), job.app.as_str()));
            },
        }
    } else {
        add_attempted(steps, service_action(&job.os, unit.as_str(), LifecycleAction::Restart));
    }
}

/// Making the previous release the current one again, with its service.
pub open spec fn restore_steps(
    job: Job,
    plan: ProjectPlan,
    previous: Seq<char>,
    slot: Option<char>,
    active: Option<char>,
) -> Seq<StepView> {
    let switched = Seq::empty() + attempted(restore_plan(job.root@, job.app@, previous));
    if plan.app_type is Service {
        with_service_restored(switched, job, plan.deploy_port_explicit, slot, active)
    } else {
        switched
    }
}

fn plan_restore(
    job: &Job,
    plan: &ProjectPlan,
    previous: &str,
    slot: Option<char>,
    active: Option<char>,
) -> (r: Vec<Step>)
    ensures
        steps_view(r@) == restore_steps(*job, *plan, previous@, slot, active),
{
    let mut steps = no_steps();
    add_attempted(&mut steps, switch_current(job.root.as_str(), job.app.as_str(), previous));
    if matches!(plan.app_type, AppType::Service) {
        put_service_restored(&mut steps, job, plan.deploy_port_explicit, slot, active);
    }
    steps
}

pub open spec fn remove_current_command(root: Seq<char>, app: Seq<char>) -> CommandView {
    script_command(
        "remove failed activation"@,
        "set -eu\nsudo -n rm -f "@ + shell_quoted(app_dir(root, app)) + "/current\n"@,
    )
}

pub open spec fn remove_route_command(app: Seq<char>) -> CommandView {
    script_command(
        "remove failed local Ciao route"@,
        "set -eu\nsudo -n rm -f "@ + shell_quoted(local_route_path(app)) + "\n"@,
    )
}

/// Taking a first release away again: its domain, its service, its link, its
/// route and its units.
pub open spec fn withdraw_steps(
    job: Job,
    plan: ProjectPlan,
    domain: Option<Seq<char>>,
    current: Option<Seq<char>>,
) -> Seq<StepView> {
    let unit = unit_name(job.app@, false);
    let s0 = Seq::empty();
    let s1 = if domain is Some {
        s0 + attempted(remove_fragment_plan(job.app@))
    } else {
        s0
    };
    let s2 = if plan.app_type is Service {
        s1 + attempted(action_plan(job.os, unit, LifecycleAction::Stop))
    } else {
        s1
    };
    let s3 = if current == Some(job.release@) {
        s2 + attempted(one(remove_current_command(job.root@, job.app@)))
    } else {
        s2
    };
    let s4 = s3 + attempted(one(remove_route_command(job.app@))) + attempted(
        remove_plan(job.os, unit),
    );
    if job.os is Linux {
        s4 + attempted(slot_remove_plan(job.os, job.app@, 'a')) + attempted(
            slot_remove_plan(job.os, job.app@, 'b'),
        ) + attempted(clear_slot_plan(job.root@, job.app@))
    } else {
        s4
    }
}

pub open spec fn is_release(current: Option<Seq<char>>, release: Seq<char>) -> bool {
    current == Some(release)
}

fn names(current: &Option<String>, release: &str) -> (r: bool)
    ensures
        r == is_release(opt_text(*current), release@),
{
    match current {
        Some(current) => same_text(current.as_str(), release),
        None => false,
    }
}

fn plan_withdraw(
    job: &Job,
    plan: &ProjectPlan,
    domain: Option<&str>,
    current: &Option<String>,
) -> (r: Vec<Step>)
    ensures
        steps_view(r@) == withdraw_steps(*job, *plan, opt_str(domain), opt_text(*current)),
{
    let unit = service_unit_name(job.app.as_str(), false);
    let mut steps = no_steps();
    if domain.is_some() {
        add_attempted(&mut steps, remove_domain_fragment(job.app.as_str()));
    }
    if matches!(plan.app_type, AppType::Service) {
        add_attempted(
            &mut steps,
            service_action(&job.os, unit.as_str(), LifecycleAction::Stop),
        );
    }
    if names(current, job.release.as_str()) {
        let script = "set -eu\nsudo -n rm -f ".to_owned().concat(
            shell_quote(app_directory(job.root.as_str(), job.app.as_str()).as_str()).as_str(),
        ).concat("/current\n");
        add_attempted(
            &mut steps,
            single_plan(script_spec("remove failed activation", script.as_str())),
        );
    }
    let script = "set -eu\nsudo -n rm -f ".to_owned().concat(
        shell_quote(local_fragment_path(job.app.as_str()).as_str()).as_str(),
    ).concat("\n");
    add_attempted(
        &mut steps,
        single_plan(script_spec("remove failed local Ciao route", script.as_str())),
    );
    add_attempted(&mut steps, remove_service(&job.os, unit.as_str()));
    if job.os.is_linux() {
        add_attempted(&mut steps, slot_remove(&job.os, job.app.as_str(), 'a'));
        add_attempted(&mut steps, slot_remove(&job.os, job.app.as_str(), 'b'));
        add_attempted(&mut steps, clear_active_slot(job.root.as_str(), job.app.as_str()));
    }
    steps
}

/// The domain that the application had was routed again.
pub open spec fn domain_routed_again(
    app: Seq<char>,
    domain: Seq<char>,
    plain: bool,
    a: Log,
    b: Log,
) -> bool {
    exists|x: Result<(), ErrorView>| #[trigger] routed_by_scheme(app, domain, plain, a, b, x)
}

pub open spec fn retained_domain_restored(
    app: Seq<char>,
    domain: Seq<char>,
    a: Log,
    b: Log,
) -> bool {
    exists|m: Log, plain: Result<bool, ErrorView>|
        #[trigger] scheme_read(app, a, m, plain) && domain_routed_again(
            app,
            domain,
            or_false(plain),
            m,
            b,
        )
}

pub open spec fn domain_restored(
    app: Seq<char>,
    domain: Option<Seq<char>>,
    a: Log,
    b: Log,
) -> bool {
    match domain {
        None => b == a,
        Some(domain) => retained_domain_restored(app, domain, a, b),
    }
}

pub open spec fn tunnel_restored(app: Seq<char>, a: Log, b: Log) -> bool {
    exists|x: Result<bool, ErrorView>| #[trigger] tunnel_synced(app, a, b, x)
}

pub open spec fn funnel_route_restored(app: Seq<char>, a: Log, b: Log) -> bool {
    exists|m: Log, x: Result<(), ErrorView>|
        #[trigger] funnel_synced(app, a, m, x) && tunnel_restored(app, m, b)
}

pub open spec fn ciao_domain_restored(app: Seq<char>, a: Log, b: Log) -> bool {
    exists|m: Log, x: Result<(), ErrorView>|
        #[trigger] ciao_domain_configured(app, a, m, x) && funnel_route_restored(app, m, b)
}

/// The routes of the application lead to its current release again, as far as
/// they could be written.
pub open spec fn routes_restored(
    app: Seq<char>,
    domain: Option<Seq<char>>,
    a: Log,
    b: Log,
) -> bool {
    exists|m: Log|
        #[trigger] domain_restored(app, domain, a, m) && ciao_domain_restored(app, m, b)
}

fn restore_retained_domain<T: RemoteHost>(session: &mut Session<T>, app: &str, domain: &str)
    ensures
        final(session).peer() == old(session).peer(),
        retained_domain_restored(app@, domain@, old(session)@, final(session)@),
{
    let plain = match existing_domain_is_plain_http(session, app) {
        Ok(plain) => plain,
        Err(_) => false,
    };
    let ghost middle = session@;
    let _ = route_by_scheme(session, app, domain, plain);
    assert(domain_routed_again(app@, domain@, plain, middle, session@));
}

fn restore_domain<T: RemoteHost>(session: &mut Session<T>, app: &str, domain: Option<&str>)
    ensures
        final(session).peer() == old(session).peer(),
        domain_restored(app@, opt_str(domain), old(session)@, final(session)@),
{
    match domain {
        None => {},
        Some(domain) => {
            restore_retained_domain(session, app, domain);
        },
    }
}

pub fn restore_routes<T: RemoteHost>(session: &mut Session<T>, app: &str, domain: Option<&str>)
    ensures
        final(session).peer() == old(session).peer(),
        routes_restored(app@, opt_str(domain), old(session)@, final(session)@),
{
    restore_domain(session, app, domain);
    let _ = configure_remote_ciao_domain(session, app);
    let ghost local = session@;
    let synced = session.sync_funnel_route(app);
    let ghost middle = session@;
    assert(funnel_synced(app@, local, middle, unit_outcome(synced)));
    let _ = sync_cloudflare_tunnel_if_present(session, app);
    assert(tunnel_restored(app@, middle, session@));
    assert(funnel_route_restored(app@, local, session@));
}

/// The previous release was restored, with its service and its routes.
pub open spec fn previous_restored(
    job: Job,
    plan: ProjectPlan,
    previous: Seq<char>,
    slot: Option<char>,
    found: SituationView,
    a: Log,
    b: Log,
) -> bool {
    exists|m: Log, x: Result<(), ErrorView>|
        #[trigger] ran(restore_steps(job, plan, previous, slot, found.slot), None, a, m, x)
            && routes_restored(job.app@, found.retained, m, b)
}

/// A first release was taken away again.
pub open spec fn first_withdrawn(
    job: Job,
    plan: ProjectPlan,
    domain: Option<Seq<char>>,
    current: Option<Seq<char>>,
    a: Log,
    b: Log,
) -> bool {
    exists|x: Result<(), ErrorView>|
        #[trigger] ran(withdraw_steps(job, plan, domain, current), None, a, b, x)
}

/// The host was brought back to what it was: to its previous release, where
/// the failed one had become the current one, or to none.
pub open spec fn brought_back(
    job: Job,
    plan: ProjectPlan,
    domain: Option<Seq<char>>,
    slot: Option<char>,
    found: SituationView,
    current: Option<Seq<char>>,
    a: Log,
    b: Log,
) -> bool {
    match found.previous {
        Some(previous) => if is_release(current, job.release@) {
            previous_restored(job, plan, previous, slot, found, a, b)
        } else {
            b == a
        },
        None => first_withdrawn(job, plan, domain, current, a, b),
    }
}

fn restore_previous<T: DeployHost>(
    session: &mut Session<T>,
    job: &Job,
    plan: &ProjectPlan,
    previous: &str,
    slot: Option<char>,
    found: &Situation,
)
    ensures
        final(session).peer() == old(session).peer(),
        previous_restored(
            *job,
            *plan,
            previous@,
            slot,
            found@,
            old(session)@,
            final(session)@,
        ),
{
    let steps = plan_restore(job, plan, previous, slot, found.slot);
    let ghost before = session@;
    let outcome = run_steps(session, &NoopProgressReporter, &steps);
    assert(ran(
        restore_steps(*job, *plan, previous@, slot, found@.slot),
        None,
        before,
        session@,
        unit_outcome(outcome),
    ));
    restore_routes(session, job.app.as_str(), borrow_opt(&found.retained));
}

fn withdraw_first<T: DeployHost>(
    session: &mut Session<T>,
    job: &Job,
    plan: &ProjectPlan,
    domain: Option<&str>,
    current: &Option<String>,
)
    ensures
        final(session).peer() == old(session).peer(),
        first_withdrawn(
            *job,
            *plan,
            opt_str(domain),
            opt_text(*current),
            old(session)@,
            final(session)@,
        ),
{
    let steps = plan_withdraw(job, plan, domain, current);
    let _ = run_steps(session, &NoopProgressReporter, &steps);
}

fn bring_back<T: DeployHost>(
    session: &mut Session<T>,
    job: &Job,
    plan: &ProjectPlan,
    domain: Option<&str>,
    slot: Option<char>,
    found: &Situation,
    current: &Option<String>,
)
    ensures
        final(session).peer() == old(session).peer(),
        brought_back(
            *job,
            *plan,
            opt_str(domain),
            slot,
            found@,
            opt_text(*current),
            old(session)@,
            final(session)@,
        ),
{
    match &found.previous {
        Some(previous) => {
            if names(current, job.release.as_str()) {
                restore_previous(session, job, plan, previous.as_str(), slot, found);
            }
        },
        None => {
            withdraw_first(session, job, plan, domain, current);
        },
    }
}

/// What is said of a hook that failed during the way back.
pub open spec fn hook_note(x: Result<(), ErrorView>) -> Seq<char> {
    match x {
        Ok(_) => Seq::empty(),
        Err(error) => "; on-rollback hook failed: "@ + error_message(redacted_hook_error(error)),
    }
}

/// The rollback hook was run in the current release.
pub open spec fn hook_ran(job: Job, command: Seq<char>, a: Log, b: Log, note: Seq<char>) -> bool {
    exists|x: Result<(), ErrorView>|
        #[trigger] performed(
            remote_hook_plan(
                job.user@,
                command,
                current_path(job.root@, job.app@),
                job.home@,
                job.env(),
                "run rollback hook"@,
            ),
            a,
            b,
            x,
        ) && note == hook_note(x)
}

/// The rollback hook, where there is one and something to go back to.
pub open spec fn rollback_hook_ran(
    job: Job,
    plan: ProjectPlan,
    previous: Option<Seq<char>>,
    a: Log,
    b: Log,
    note: Seq<char>,
) -> bool {
    match plan.hooks.on_rollback {
        Some(command) => if previous is Some {
            hook_ran(job, command@, a, b, note)
        } else {
            b == a && note == Seq::<char>::empty()
        },
        None => b == a && note == Seq::<char>::empty(),
    }
}

fn run_hook_back<T: RemoteHost>(session: &mut Session<T>, job: &Job, command: &str) -> (r: String)
    ensures
        final(session).peer() == old(session).peer(),
        hook_ran(*job, command@, old(session)@, final(session)@, r@),
{
    let hook = run_remote_hook(
        job.user.as_str(),
        command,
        current_link(job.root.as_str(), job.app.as_str()).as_str(),
        job.home.as_str(),
        job.environment().as_str(),
        "run rollback hook",
    );
    let outcome = perform(session, hook);
    let ghost view = unit_outcome(outcome);
    let note = match outcome {
        Ok(()) => String::new(),
        Err(error) => "; on-rollback hook failed: ".to_owned().concat(
            redact_hook_error(error).message().as_str(),
        ),
    };
    assert(note@ == hook_note(view));
    note
}

fn run_rollback_hook<T: RemoteHost>(
    session: &mut Session<T>,
    job: &Job,
    plan: &ProjectPlan,
    previous: &Option<String>,
) -> (r: String)
    ensures
        final(session).peer() == old(session).peer(),
        rollback_hook_ran(
            *job,
            *plan,
            opt_text(*previous),
            old(session)@,
            final(session)@,
            r@,
        ),
{
    match &plan.hooks.on_rollback {
        Some(command) => if previous.is_some() {
            run_hook_back(session, job, command.as_str())
        } else {
            String::new()
        },
        None => String::new(),
    }
}

/// What a failed deployment says of the release before it.
pub open spec fn back_note(previous: Option<Seq<char>>) -> Seq<char> {
    match previous {
        Some(previous) => "previous release `"@ + previous + "` was restored when possible"@,
        None => "no previous release existed"@,
    }
}

pub open spec fn or_none_text(previous: Option<Seq<char>>) -> Seq<char> {
    match previous {
        Some(previous) => previous,
        None => "none"@,
    }
}

fn text_or_none(previous: &Option<String>) -> (r: String)
    ensures
        r@ == or_none_text(opt_text(*previous)),
{
    match previous {
        Some(previous) => previous.clone(),
        None => "none".to_owned(),
    }
}

/// The error of a failed deployment.
pub open spec fn failed_deploy(
    error: ErrorView,
    previous: Option<Seq<char>>,
    note: Seq<char>,
) -> ErrorView {
    ErrorView::Deployment {
        stage: "deploy"@,
        message: error_message(error) + "; "@ + back_note(previous) + note,
        previous_release: or_none_text(previous),
    }
}

pub open spec fn recovered_after_cleanup(
    job: Job,
    plan: ProjectPlan,
    found: SituationView,
    error: ErrorView,
    a: Log,
    b: Log,
    r: ErrorView,
) -> bool {
    exists|note: Seq<char>|
        #[trigger] rollback_hook_ran(job, plan, found.previous, a, b, note) && r == failed_deploy(
            error,
            found.previous,
            note,
        )
}

pub open spec fn discard_release_steps(job: Job) -> Seq<StepView> {
    Seq::empty() + attempted(cleanup_plan(job.os, job.app@, job.release@))
}

pub open spec fn recovered_after_return(
    job: Job,
    plan: ProjectPlan,
    found: SituationView,
    error: ErrorView,
    a: Log,
    b: Log,
    r: ErrorView,
) -> bool {
    exists|m: Log, x: Result<(), ErrorView>|
        #[trigger] ran(discard_release_steps(job), None, a, m, x) && recovered_after_cleanup(
            job,
            plan,
            found,
            error,
            m,
            b,
            r,
        )
}

pub open spec fn recovered_with_current(
    job: Job,
    plan: ProjectPlan,
    domain: Option<Seq<char>>,
    slot: Option<char>,
    found: SituationView,
    current: Option<Seq<char>>,
    error: ErrorView,
    a: Log,
    b: Log,
    r: ErrorView,
) -> bool {
    exists|m: Log|
        #[trigger] brought_back(job, plan, domain, slot, found, current, a, m)
            && recovered_after_return(job, plan, found, error, m, b, r)
}

pub open spec fn recovered_after_discard(
    job: Job,
    plan: ProjectPlan,
    domain: Option<Seq<char>>,
    slot: Option<char>,
    found: SituationView,
    error: ErrorView,
    a: Log,
    b: Log,
    r: ErrorView,
) -> bool {
    exists|m: Log, x: Result<Option<Seq<char>>, ErrorView>|
        #[trigger] current_release_read(job.root@, job.app@, a, m, x) && recovered_with_current(
            job,
            plan,
            domain,
            slot,
            found,
            release_or_none(x),
            error,
            m,
            b,
            r,
        )
}

pub open spec fn recovered_with_slot(
    job: Job,
    plan: ProjectPlan,
    domain: Option<Seq<char>>,
    slot: Option<char>,
    found: SituationView,
    active: Option<char>,
    error: ErrorView,
    a: Log,
    b: Log,
    r: ErrorView,
) -> bool {
    exists|m: Log, x: Result<(), ErrorView>|
        #[trigger] ran(discard_steps(job, slot, active), None, a, m, x) && recovered_after_discard(
            job,
            plan,
            domain,
            slot,
            found,
            error,
            m,
            b,
            r,
        )
}

/// A deployment that failed with `error` was undone as far as possible.
#[verifier::opaque]
pub open spec fn recovered(
    job: Job,
    plan: ProjectPlan,
    domain: Option<Seq<char>>,
    slot: Option<char>,
    found: SituationView,
    error: ErrorView,
    a: Log,
    b: Log,
    r: ErrorView,
) -> bool {
    exists|m: Log, active: Option<char>|
        #[trigger] slot_read_again(job.os, job.root@, job.app@, a, m, active)
            && recovered_with_slot(job, plan, domain, slot, found, active, error, m, b, r)
}

fn recover_after_return<T: DeployHost>(
    session: &mut Session<T>,
    job: &Job,
    plan: &ProjectPlan,
    found: &Situation,
    error: CiaoError,
) -> (r: CiaoError)
    ensures
        final(session).peer() == old(session).peer(),
        recovered_after_return(
            *job,
            *plan,
            found@,
            error@,
            old(session)@,
            final(session)@,
            r@,
        ),
{
    let mut steps = no_steps();
    add_attempted(
        &mut steps,
        cleanup_release(&job.os, job.app.as_str(), job.release.as_str()),
    );
    assert(steps_view(steps@) == discard_release_steps(*job));
    let _ = run_steps(session, &NoopProgressReporter, &steps);
    let note = run_rollback_hook(session, job, plan, &found.previous);
    let back = match &found.previous {
        Some(previous) => "previous release `".to_owned().concat(previous.as_str()).concat(
            "` was restored when possible",
        ),
        None => "no previous release existed".to_owned(),
    };
    CiaoError::Deployment {
        stage: "deploy".to_owned(),
        message: error.message().concat("; ").concat(back.as_str()).concat(note.as_str()),
        previous_release: text_or_none(&found.previous),
    }
}

fn recover_after_discard<T: DeployHost>(
    session: &mut Session<T>,
    job: &Job,
    plan: &ProjectPlan,
    domain: Option<&str>,
    slot: Option<char>,
    found: &Situation,
    error: CiaoError,
) -> (r: CiaoError)
    ensures
        final(session).peer() == old(session).peer(),
        recovered_after_discard(
            *job,
            *plan,
            opt_str(domain),
            slot,
            found@,
            error@,
            old(session)@,
            final(session)@,
            r@,
        ),
{
    let outcome = read_current_release(session, job.root.as_str(), job.app.as_str());
    let ghost view = opt_text_outcome(outcome);
    let current: Option<String> = match outcome {
        Ok(release) => release,
        Err(_) => None,
    };
    assert(opt_text(current) == release_or_none(view));
    bring_back(session, job, plan, domain, slot, found, &current);
    recover_after_return(session, job, plan, found, error)
}

/// Undoes a deployment that failed with `error`.
fn recover<T: DeployHost>(
    session: &mut Session<T>,
    job: &Job,
    plan: &ProjectPlan,
    domain: Option<&str>,
    slot: Option<char>,
    found: &Situation,
    error: CiaoError,
) -> (r: CiaoError)
    ensures
        final(session).peer() == old(session).peer(),
        recovered(
            *job,
            *plan,
            opt_str(domain),
            slot,
            found@,
            error@,
            old(session)@,
            final(session)@,
            r@,
        ),
{
    proof {
        reveal(recovered);
    }
    let active = read_slot_again(session, &job.os, job.root.as_str(), job.app.as_str());
    let steps = plan_discard(job, slot, active);
    let _ = run_steps(session, &NoopProgressReporter, &steps);
    recover_after_discard(session, job, plan, domain, slot, found, error)
}

// ---------------------------------------------------------------------------
// A deployment
// ---------------------------------------------------------------------------

/// The domain that a deployment ends up with.
pub open spec fn effective(
    domain: Option<Seq<char>>,
    retained: Option<Seq<char>>,
) -> Option<Seq<char>> {
    match domain {
        Some(domain) => Some(domain),
        None => retained,
    }
}

pub open spec fn deployed_view(job: Job, found: SituationView) -> DeployView {
    DeployView {
        app: job.app@,
        release: job.release@,
        previous_release: found.previous,
        port: found.port,
        active: true,
        dry_run: false,
        message: "✓ release "@ + job.release@ + " active"@,
    }
}

/// What follows the work on the release: its result, or the way back.
pub open spec fn settled(
    job: Job,
    plan: ProjectPlan,
    domain: Option<Seq<char>>,
    found: SituationView,
    x: Result<(), ErrorView>,
    a: Log,
    b: Log,
    r: Result<DeployView, ErrorView>,
) -> bool {
    match x {
        Ok(_) => b == a && r == Ok::<DeployView, ErrorView>(deployed_view(job, found)),
        Err(error) => r is Err && recovered(
            job,
            plan,
            domain,
            candidate_slot(job.os, plan.app_type, plan.deploy_port_explicit, found.slot),
            found,
            error,
            a,
            b,
            r->Err_0,
        ),
    }
}

pub open spec fn deployed_with_runtime(
    job: Job,
    source: Seq<char>,
    plan: ProjectPlan,
    domain: Option<Seq<char>>,
    found: SituationView,
    a: Log,
    b: Log,
    r: Result<DeployView, ErrorView>,
) -> bool {
    exists|m: Log, x: Result<(), ErrorView>|
        #[trigger] worked(job, source, plan, found.port, found.slot, domain, a, m, x) && settled(
            job,
            plan,
            domain,
            found,
            x,
            m,
            b,
            r,
        )
}

/// The error of a deployment whose runtime could not be installed.
pub open spec fn runtime_failed(error: ErrorView, previous: Option<Seq<char>>) -> ErrorView {
    ErrorView::Deployment {
        stage: "runtime initialization"@,
        message: error_message(error),
        previous_release: or_none_text(previous),
    }
}

pub open spec fn runtime_steps(job: Job, plan: ProjectPlan) -> Seq<StepView> {
    with_step(
        Seq::empty(),
        "prepare runtime"@,
        runtime_plan(job.os, plan.runtime, job.user@, app_dir(job.root@, job.app@)),
    )
}

#[verifier::opaque]
pub open spec fn deployed_as(
    job: Job,
    source: Seq<char>,
    plan: ProjectPlan,
    domain: Option<Seq<char>>,
    found: SituationView,
    a: Log,
    b: Log,
    r: Result<DeployView, ErrorView>,
) -> bool {
    exists|m: Log, x: Result<(), ErrorView>|
        #[trigger] ran(runtime_steps(job, plan), None, a, m, x) && match x {
            Err(error) => b == m && r == Err::<DeployView, ErrorView>(
                runtime_failed(error, found.previous),
            ),
            Ok(_) => deployed_with_runtime(job, source, plan, domain, found, m, b, r),
        }
}

/// `job` is the release of an application on a host.
pub open spec fn is_job(
    job: Job,
    os: HostOs,
    app: Seq<char>,
    release: Seq<char>,
    user: Seq<char>,
    home: Seq<char>,
) -> bool {
    &&& job.os == os
    &&& job.root@ == app_root(os)
    &&& job.app@ == app
    &&& job.release@ == release
    &&& job.user@ == user
    &&& job.home@ == home
}

pub open spec fn deployed_by(
    release: Seq<char>,
    source: Seq<char>,
    plan: ProjectPlan,
    domain: Option<Seq<char>>,
    found: SituationView,
    user: Seq<char>,
    home: Seq<char>,
    a: Log,
    b: Log,
    r: Result<DeployView, ErrorView>,
) -> bool {
    exists|job: Job|
        #[trigger] is_job(job, found.os, plan.name@, release, user, home) && deployed_as(
            job,
            source,
            plan,
            domain,
            found,
            a,
            b,
            r,
        )
}

pub open spec fn deployed_with_layout(
    release: Seq<char>,
    source: Seq<char>,
    plan: ProjectPlan,
    domain: Option<Seq<char>>,
    found: SituationView,
    target: Seq<char>,
    a: Log,
    b: Log,
    r: Result<DeployView, ErrorView>,
) -> bool {
    match cache_path(found.os, plan.name@) {
        Err(error) => b == a && r == Err::<DeployView, ErrorView>(error),
        Ok(home) => match service_account(found.os, target, plan.name@) {
            Err(error) => b == a && r == Err::<DeployView, ErrorView>(error),
            Ok(user) => deployed_by(release, source, plan, domain, found, user, home, a, b, r),
        },
    }
}

pub open spec fn layout_steps(
    os: HostOs,
    target: Seq<char>,
    app: Seq<char>,
    release: Seq<char>,
) -> Seq<StepView> {
    with_step(Seq::empty(), "prepare remote layout"@, layout_plan(os, target, app, release))
}

#[verifier::opaque]
pub open spec fn deployed_to(
    release: Seq<char>,
    source: Seq<char>,
    plan: ProjectPlan,
    domain: Option<Seq<char>>,
    found: SituationView,
    target: Seq<char>,
    a: Log,
    b: Log,
    r: Result<DeployView, ErrorView>,
) -> bool {
    exists|m: Log, x: Result<(), ErrorView>|
        #[trigger] ran(layout_steps(found.os, target, plan.name@, release), None, a, m, x)
            && match x {
            Err(error) => b == m && r == Err::<DeployView, ErrorView>(error),
            Ok(_) => deployed_with_layout(
                release,
                source,
                plan,
                domain,
                found,
                target,
                m,
                b,
                r,
            ),
        }
}

pub open spec fn deployed_in(
    release: Seq<char>,
    source: Seq<char>,
    plan: ProjectPlan,
    domain: Option<Seq<char>>,
    found: SituationView,
    a: Log,
    b: Log,
    r: Result<DeployView, ErrorView>,
) -> bool {
    exists|m: Log, target: Seq<char>|
        #[trigger] destination_read(a, m, target) && deployed_to(
            release,
            source,
            plan,
            effective(domain, found.retained),
            found,
            target,
            m,
            b,
            r,
        )
}

pub open spec fn deployed_on(
    release: Seq<char>,
    source: Seq<char>,
    plan: ProjectPlan,
    domain: Option<Seq<char>>,
    platform: HostPlatform,
    a: Log,
    b: Log,
    r: Result<DeployView, ErrorView>,
) -> bool {
    exists|m: Log, x: Result<SituationView, ErrorView>|
        #[trigger] situation_read(platform.os, plan, a, m, x) && match x {
            Err(error) => b == m && r == Err::<DeployView, ErrorView>(error),
            Ok(found) => deployed_in(release, source, plan, domain, found, m, b, r),
        }
}

/// The host was asked what it is, as a progress step.
pub open spec fn inspected_in_step(
    name: Seq<char>,
    a: Log,
    b: Log,
    r: Result<HostPlatform, ErrorView>,
) -> bool {
    exists|m: Log, x: Result<HostPlatform, ErrorView>|
        #[trigger] inspected(a, m, x) && closed_with(name, x, m, b, r)
}

pub open spec fn inspection_step(
    name: Seq<char>,
    a: Log,
    b: Log,
    r: Result<HostPlatform, ErrorView>,
) -> bool {
    exists|m: Log, x: Result<(), ErrorView>|
        #[trigger] opened(name, a, m, x) && match x {
            Err(error) => b == m && r == Err::<HostPlatform, ErrorView>(error),
            Ok(_) => inspected_in_step(name, m, b, r),
        }
}

fn inspect_step<T: RemoteHost, P: ProgressReporter>(
    session: &mut Session<T>,
    reporter: &P,
    name: &str,
) -> (r: Result<HostPlatform, CiaoError>)
    ensures
        final(session).peer() == old(session).peer(),
        inspection_step(name@, old(session)@, final(session)@, plain_outcome(r)),
{
    open_step(session, reporter, name)?;
    let outcome = session.inspect();
    close_step(session, reporter, name, outcome)
}

pub open spec fn hook_in_step(
    source: Seq<char>,
    command: Seq<char>,
    a: Log,
    b: Log,
    r: Result<(), ErrorView>,
) -> bool {
    exists|m: Log, x: Result<(), ErrorView>|
        #[trigger] local_hook_ran(source, command, a, m, x) && closed_with(
            "pre-upload hook"@,
            x,
            m,
            b,
            r,
        )
}

pub open spec fn hook_step(
    source: Seq<char>,
    command: Seq<char>,
    a: Log,
    b: Log,
    r: Result<(), ErrorView>,
) -> bool {
    exists|m: Log, x: Result<(), ErrorView>|
        #[trigger] opened("pre-upload hook"@, a, m, x) && match x {
            Err(error) => b == m && r == Err::<(), ErrorView>(error),
            Ok(_) => hook_in_step(source, command, m, b, r),
        }
}

/// The hook before the upload, where the project has one.
pub open spec fn pre_upload_done(
    source: Seq<char>,
    plan: ProjectPlan,
    a: Log,
    b: Log,
    r: Result<(), ErrorView>,
) -> bool {
    match plan.hooks.pre_upload {
        None => b == a && r == Ok::<(), ErrorView>(()),
        Some(command) => hook_step(source, command@, a, b, r),
    }
}

fn run_hook_step<T: DeployHost, P: ProgressReporter>(
    session: &mut Session<T>,
    reporter: &P,
    source: &str,
    command: &str,
) -> (r: Result<(), CiaoError>)
    ensures
        final(session).peer() == old(session).peer(),
        hook_step(source@, command@, old(session)@, final(session)@, unit_outcome(r)),
{
    open_step(session, reporter, "pre-upload hook")?;
    let outcome = run_local_hook(session, source, command);
    close_step(session, reporter, "pre-upload hook", outcome)
}

fn run_pre_upload<T: DeployHost, P: ProgressReporter>(
    session: &mut Session<T>,
    reporter: &P,
    source: &str,
    plan: &ProjectPlan,
) -> (r: Result<(), CiaoError>)
    ensures
        final(session).peer() == old(session).peer(),
        pre_upload_done(source@, *plan, old(session)@, final(session)@, unit_outcome(r)),
{
    match &plan.hooks.pre_upload {
        None => Ok(()),
        Some(command) => run_hook_step(session, reporter, source, command.as_str()),
    }
}

pub open spec fn deployed_after_hook(
    release: Seq<char>,
    source: Seq<char>,
    plan: ProjectPlan,
    domain: Option<Seq<char>>,
    a: Log,
    b: Log,
    r: Result<DeployView, ErrorView>,
) -> bool {
    exists|m: Log, x: Result<HostPlatform, ErrorView>|
        #[trigger] inspection_step("prepare deployment"@, a, m, x) && match x {
            Err(error) => b == m && r == Err::<DeployView, ErrorView>(error),
            Ok(platform) => deployed_on(release, source, plan, domain, platform, m, b, r),
        }
}

/// A release was deployed under a name.
#[verifier::opaque]
pub open spec fn deployed_under(
    release: Seq<char>,
    source: Seq<char>,
    plan: ProjectPlan,
    domain: Option<Seq<char>>,
    a: Log,
    b: Log,
    r: Result<DeployView, ErrorView>,
) -> bool {
    exists|m: Log, x: Result<(), ErrorView>|
        #[trigger] pre_upload_done(source, plan, a, m, x) && match x {
            Err(error) => b == m && r == Err::<DeployView, ErrorView>(error),
            Ok(_) => deployed_after_hook(release, source, plan, domain, m, b, r),
        }
}

pub open spec fn deployed_named(
    release: Seq<char>,
    source: Seq<char>,
    plan: ProjectPlan,
    domain: Option<Seq<char>>,
    dry_run: bool,
    a: Log,
    b: Log,
    r: Result<DeployView, ErrorView>,
) -> bool {
    match identifier_check("release"@, release) {
        Err(error) => b == a && r == Err::<DeployView, ErrorView>(error),
        Ok(_) => if dry_run {
            b == a && r == Ok::<DeployView, ErrorView>(dry_run_view(plan, release, domain))
        } else {
            deployed_under(release, source, plan, domain, a, b, r)
        },
    }
}

/// A release got a name from the clock.
pub open spec fn release_named(a: Log, b: Log, release: Seq<char>) -> bool {
    exists|seconds: u64, nanos: u32|
        #[trigger] clock_read(a, b, seconds, nanos) && names_release(
            release,
            seconds as nat,
            nanos as nat,
        )
}

fn name_release<T: DeployHost>(session: &mut Session<T>) -> (r: String)
    ensures
        final(session).peer() == old(session).peer(),
        release_named(old(session)@, final(session)@, r@),
{
    let (seconds, nanos) = session.now();
    release_id(seconds, nanos)
}

pub open spec fn named_and_deployed(
    source: Seq<char>,
    plan: ProjectPlan,
    domain: Option<Seq<char>>,
    dry_run: bool,
    a: Log,
    b: Log,
    r: Result<DeployView, ErrorView>,
) -> bool {
    exists|m: Log, release: Seq<char>|
        #[trigger] release_named(a, m, release) && deployed_named(
            release,
            source,
            plan,
            domain,
            dry_run,
            m,
            b,
            r,
        )
}

/// Why a domain cannot be deployed to, if it cannot.
pub open spec fn opt_domain_check(domain: Option<Seq<char>>) -> Result<(), ErrorView> {
    match domain {
        Some(domain) => domain_check(domain),
        None => Ok(()),
    }
}

/// A project was deployed, by someone who holds the deployment lock.
#[verifier::opaque]
pub open spec fn deployed_unlocked(
    source: Seq<char>,
    plan: ProjectPlan,
    domain: Option<Seq<char>>,
    dry_run: bool,
    a: Log,
    b: Log,
    r: Result<DeployView, ErrorView>,
) -> bool {
    match opt_domain_check(domain) {
        Err(error) => b == a && r == Err::<DeployView, ErrorView>(error),
        Ok(_) => named_and_deployed(source, plan, domain, dry_run, a, b, r),
    }
}

fn settle<T: DeployHost>(
    session: &mut Session<T>,
    job: &Job,
    plan: &ProjectPlan,
    domain: Option<&str>,
    found: &Situation,
    outcome: Result<(), CiaoError>,
) -> (r: Result<DeployResult, CiaoError>)
    ensures
        final(session).peer() == old(session).peer(),
        settled(
            *job,
            *plan,
            opt_str(domain),
            found@,
            unit_outcome(outcome),
            old(session)@,
            final(session)@,
            deploy_outcome(r),
        ),
{
    match outcome {
        Ok(()) => Ok(
            DeployResult {
                app: job.app.clone(),
                release: job.release.clone(),
                previous_release: copy_opt(&found.previous),
                port: found.port,
                active: true,
                dry_run: false,
                message: "✓ release ".to_owned().concat(job.release.as_str()).concat(" active"),
            },
        ),
        Err(error) => {
            let slot = choose_slot(
                &job.os,
                plan.app_type,
                plan.deploy_port_explicit,
                found.slot,
            );
            Err(recover(session, job, plan, domain, slot, found, error))
        },
    }
}

fn deploy_with_runtime<T: DeployHost, P: ProgressReporter>(
    session: &mut Session<T>,
    reporter: &P,
    job: &Job,
    source: &str,
    plan: &ProjectPlan,
    domain: Option<&str>,
    found: &Situation,
) -> (r: Result<DeployResult, CiaoError>)
    ensures
        final(session).peer() == old(session).peer(),
        deployed_with_runtime(
            *job,
            source@,
            *plan,
            opt_str(domain),
            found@,
            old(session)@,
            final(session)@,
            deploy_outcome(r),
        ),
{
    let outcome = work(session, reporter, job, source, plan, found.port, found.slot, domain);
    settle(session, job, plan, domain, found, outcome)
}

fn deploy_job<T: DeployHost, P: ProgressReporter>(
    session: &mut Session<T>,
    reporter: &P,
    job: &Job,
    source: &str,
    plan: &ProjectPlan,
    domain: Option<&str>,
    found: &Situation,
) -> (r: Result<DeployResult, CiaoError>)
    ensures
        final(session).peer() == old(session).peer(),
        deployed_as(
            *job,
            source@,
            *plan,
            opt_str(domain),
            found@,
            old(session)@,
            final(session)@,
            deploy_outcome(r),
        ),
{
    proof {
        reveal(deployed_as);
    }
    let mut steps = no_steps();
    let runtime = ensure_runtime(
        &job.os,
        plan.runtime,
        job.user.as_str(),
        app_directory(job.root.as_str(), job.app.as_str()).as_str(),
    );
    put_step(&mut steps, "prepare runtime", runtime);
    assert(steps_view(steps@) == runtime_steps(*job, *plan));
    match run_steps(session, reporter, &steps) {
        Err(error) => Err(
            CiaoError::Deployment {
                stage: "runtime initialization".to_owned(),
                message: error.message(),
                previous_release: text_or_none(&found.previous),
            },
        ),
        Ok(()) => deploy_with_runtime(session, reporter, job, source, plan, domain, found),
    }
}

fn deploy_with_layout<T: DeployHost, P: ProgressReporter>(
    session: &mut Session<T>,
    reporter: &P,
    release: &str,
    source: &str,
    plan: &ProjectPlan,
    domain: Option<&str>,
    found: &Situation,
    target: &str,
) -> (r: Result<DeployResult, CiaoError>)
    ensures
        final(session).peer() == old(session).peer(),
        deployed_with_layout(
            release@,
            source@,
            *plan,
            opt_str(domain),
            found@,
            target@,
            old(session)@,
            final(session)@,
            deploy_outcome(r),
        ),
{
    let home = build_cache_path(&found.os, plan.name.as_str())?;
    let user = service_user(&found.os, target, plan.name.as_str())?;
    let job = Job {
        os: found.os.clone(),
        root: host_app_root(&found.os),
        app: plan.name.clone(),
        release: release.to_owned(),
        user,
        home,
    };
    assert(is_job(job, found@.os, plan.name@, release@, job.user@, job.home@));
    deploy_job(session, reporter, &job, source, plan, domain, found)
}

fn deploy_to<T: DeployHost, P: ProgressReporter>(
    session: &mut Session<T>,
    reporter: &P,
    release: &str,
    source: &str,
    plan: &ProjectPlan,
    domain: Option<&str>,
    found: &Situation,
    target: &str,
) -> (r: Result<DeployResult, CiaoError>)
    ensures
        final(session).peer() == old(session).peer(),
        deployed_to(
            release@,
            source@,
            *plan,
            opt_str(domain),
            found@,
            target@,
            old(session)@,
            final(session)@,
            deploy_outcome(r),
        ),
{
    proof {
        reveal(deployed_to);
    }
    let mut steps = no_steps();
    let layout = ensure_remote_layout(&found.os, target, plan.name.as_str(), release);
    put_step(&mut steps, "prepare remote layout", layout);
    assert(steps_view(steps@) == layout_steps(found@.os, target@, plan.name@, release@));
    run_steps(session, reporter, &steps)?;
    deploy_with_layout(session, reporter, release, source, plan, domain, found, target)
}

fn deploy_in<T: DeployHost, P: ProgressReporter>(
    session: &mut Session<T>,
    reporter: &P,
    release: &str,
    source: &str,
    plan: &ProjectPlan,
    domain: Option<&str>,
    found: &Situation,
) -> (r: Result<DeployResult, CiaoError>)
    ensures
        final(session).peer() == old(session).peer(),
        deployed_in(
            release@,
            source@,
            *plan,
            opt_str(domain),
            found@,
            old(session)@,
            final(session)@,
            deploy_outcome(r),
        ),
{
    let ghost before = session@;
    let target = session.destination();
    assert(destination_read(before, session@, target@));
    let domain = match domain {
        Some(domain) => Some(domain),
        None => borrow_opt(&found.retained),
    };
    deploy_to(session, reporter, release, source, plan, domain, found, target.as_str())
}

fn deploy_on<T: DeployHost, P: ProgressReporter>(
    session: &mut Session<T>,
    reporter: &P,
    release: &str,
    source: &str,
    plan: &ProjectPlan,
    domain: Option<&str>,
    platform: &HostPlatform,
) -> (r: Result<DeployResult, CiaoError>)
    ensures
        final(session).peer() == old(session).peer(),
        deployed_on(
            release@,
            source@,
            *plan,
            opt_str(domain),
            *platform,
            old(session)@,
            final(session)@,
            deploy_outcome(r),
        ),
{
    let found = read_situation(session, &platform.os, plan)?;
    deploy_in(session, reporter, release, source, plan, domain, &found)
}

fn deploy_under<T: DeployHost, P: ProgressReporter>(
    session: &mut Session<T>,
    reporter: &P,
    release: &str,
    source: &str,
    plan: &ProjectPlan,
    domain: Option<&str>,
) -> (r: Result<DeployResult, CiaoError>)
    ensures
        final(session).peer() == old(session).peer(),
        deployed_under(
            release@,
            source@,
            *plan,
            opt_str(domain),
            old(session)@,
            final(session)@,
            deploy_outcome(r),
        ),
{
    proof {
        reveal(deployed_under);
    }
    run_pre_upload(session, reporter, source, plan)?;
    let platform = inspect_step(session, reporter, "prepare deployment")?;
    deploy_on(session, reporter, release, source, plan, domain, &platform)
}

/// Deploys a project, for a caller that holds the deployment lock, or says
/// what a deployment would do.
///
/// The host itself brings the Funnel route in line: the contract fixes when it is
/// asked to and what follows from its answer, and says nothing of how it does so.
pub fn deploy_unlocked<T: DeployHost, P: ProgressReporter>(
    session: &mut Session<T>,
    source: &str,
    plan: &ProjectPlan,
    domain: Option<&str>,
    dry_run: bool,
    reporter: &P,
) -> (r: Result<DeployResult, CiaoError>)
    ensures
        final(session).peer() == old(session).peer(),
        deployed_unlocked(
            source@,
            *plan,
            opt_str(domain),
            dry_run,
            old(session)@,
            final(session)@,
            deploy_outcome(r),
        ),
{
    proof {
        reveal(deployed_unlocked);
    }
    match domain {
        Some(domain) => {
            validate_domain(domain)?;
        },
        None => {},
    }
    let release = name_release(session);
    validate_identifier("release", release.as_str())?;
    if dry_run {
        return Ok(dry_run_result(plan, release, domain));
    }
    deploy_under(session, reporter, release.as_str(), source, plan, domain)
}

// ---------------------------------------------------------------------------
// The deployment lock
// ---------------------------------------------------------------------------

/// An operation was carried out as a progress step that cannot be interrupted.
pub open spec fn done_to_the_end(
    name: Seq<char>,
    plan: Result<Seq<CommandView>, ErrorView>,
    a: Log,
    b: Log,
    r: Result<(), ErrorView>,
) -> bool {
    exists|m: Log|
        #[trigger] performed(plan, a.push(Exchange::Notice(Notice::Started, name)), m, r) && b
            == m.push(
            Exchange::Notice(
                if r is Ok {
                    Notice::Finished
                } else {
                    Notice::Failed
                },
                name,
            ),
        )
}

fn do_to_the_end<T: RemoteHost, P: ProgressReporter>(
    session: &mut Session<T>,
    reporter: &P,
    name: &str,
    plan: Result<Vec<CommandSpec>, CiaoError>,
) -> (r: Result<(), CiaoError>)
    ensures
        final(session).peer() == old(session).peer(),
        done_to_the_end(name@, plan_outcome(plan), old(session)@, final(session)@, unit_outcome(r)),
{
    session.started(reporter, name);
    let outcome = perform(session, plan);
    let ghost middle = session@;
    match &outcome {
        Ok(()) => {
            session.finished(reporter, name);
        },
        Err(_) => {
            session.failed(reporter, name);
        },
    }
    outcome
}

/// The lock was given back.
pub open spec fn lock_released(
    root: Seq<char>,
    app: Seq<char>,
    owner: Seq<char>,
    a: Log,
    b: Log,
    r: Result<(), ErrorView>,
) -> bool {
    done_to_the_end("release deployment lock"@, release_lock_plan(root, app, owner), a, b, r)
}

/// The outcome of a deployment and of giving the lock back.
pub open spec fn combined(
    result: Result<DeployView, ErrorView>,
    unlock: Result<(), ErrorView>,
) -> Result<DeployView, ErrorView> {
    match (result, unlock) {
        (Ok(result), Ok(_)) => Ok(result),
        (Err(error), Ok(_)) => Err(error),
        (Ok(_), Err(error)) => Err(
            ErrorView::Deployment {
                stage: "release deployment lock"@,
                message: error_message(error),
                previous_release: "unknown"@,
            },
        ),
        (Err(error), Err(other)) => Err(
            ErrorView::Deployment {
                stage: "deploy"@,
                message: error_message(error) + "; deployment lock cleanup failed: "@
                    + error_message(other),
                previous_release: "unknown"@,
            },
        ),
    }
}

fn combine(result: Result<DeployResult, CiaoError>, unlock: Result<(), CiaoError>) -> (r: Result<
    DeployResult,
    CiaoError,
>)
    ensures
        deploy_outcome(r) == combined(deploy_outcome(result), unit_outcome(unlock)),
{
    match (result, unlock) {
        (Ok(result), Ok(())) => Ok(result),
        (Err(error), Ok(())) => Err(error),
        (Ok(_), Err(error)) => Err(
            CiaoError::Deployment {
                stage: "release deployment lock".to_owned(),
                message: error.message(),
                previous_release: "unknown".to_owned(),
            },
        ),
        (Err(error), Err(other)) => Err(
            CiaoError::Deployment {
                stage: "deploy".to_owned(),
                message: error.message().concat("; deployment lock cleanup failed: ").concat(
                    other.message().as_str(),
                ),
                previous_release: "unknown".to_owned(),
            },
        ),
    }
}

pub open spec fn unlocked_after(
    root: Seq<char>,
    app: Seq<char>,
    owner: Seq<char>,
    result: Result<DeployView, ErrorView>,
    a: Log,
    b: Log,
    r: Result<DeployView, ErrorView>,
) -> bool {
    exists|unlock: Result<(), ErrorView>|
        #[trigger] lock_released(root, app, owner, a, b, unlock) && r == combined(result, unlock)
}

/// The deployment was carried out under the lock, which was given back.
pub open spec fn deployed_locked(
    root: Seq<char>,
    owner: Seq<char>,
    source: Seq<char>,
    plan: ProjectPlan,
    domain: Option<Seq<char>>,
    a: Log,
    b: Log,
    r: Result<DeployView, ErrorView>,
) -> bool {
    exists|m: Log, x: Result<DeployView, ErrorView>|
        #[trigger] deployed_unlocked(source, plan, domain, false, a, m, x) && unlocked_after(
            root,
            plan.name@,
            owner,
            x,
            m,
            b,
            r,
        )
}

/// The lock was not acquired. Where the user asked to stop, it may have been
/// set all the same, and is given back.
pub open spec fn lock_refused(
    root: Seq<char>,
    app: Seq<char>,
    owner: Seq<char>,
    a: Log,
    b: Log,
) -> bool {
    ||| b == a.push(Exchange::Cancelled(false))
    ||| lock_refused_by_user(root, app, owner, a.push(Exchange::Cancelled(true)), b)
}

pub open spec fn lock_refused_by_user(
    root: Seq<char>,
    app: Seq<char>,
    owner: Seq<char>,
    a: Log,
    b: Log,
) -> bool {
    exists|x: Result<(), ErrorView>| #[trigger] lock_released(root, app, owner, a, b, x)
}

pub open spec fn lock_steps(root: Seq<char>, app: Seq<char>, owner: Seq<char>) -> Seq<StepView> {
    with_step(Seq::empty(), "acquire deployment lock"@, acquire_lock_plan(root, app, owner))
}

pub open spec fn deployed_as_owner(
    root: Seq<char>,
    owner: Seq<char>,
    source: Seq<char>,
    plan: ProjectPlan,
    domain: Option<Seq<char>>,
    a: Log,
    b: Log,
    r: Result<DeployView, ErrorView>,
) -> bool {
    exists|m: Log, x: Result<(), ErrorView>|
        #[trigger] ran(lock_steps(root, plan.name@, owner), None, a, m, x) && match x {
            Err(error) => r == Err::<DeployView, ErrorView>(error) && lock_refused(
                root,
                plan.name@,
                owner,
                m,
                b,
            ),
            Ok(_) => deployed_locked(root, owner, source, plan, domain, m, b, r),
        }
}

pub open spec fn deployed_when_prepared(
    os: HostOs,
    source: Seq<char>,
    plan: ProjectPlan,
    domain: Option<Seq<char>>,
    a: Log,
    b: Log,
    r: Result<DeployView, ErrorView>,
) -> bool {
    exists|m: Log, owner: Seq<char>|
        #[trigger] release_named(a, m, owner) && deployed_as_owner(
            app_root(os),
            owner,
            source,
            plan,
            domain,
            m,
            b,
            r,
        )
}

pub open spec fn deployed_on_platform(
    platform: HostPlatform,
    source: Seq<char>,
    plan: ProjectPlan,
    domain: Option<Seq<char>>,
    interactive: bool,
    a: Log,
    b: Log,
    r: Result<DeployView, ErrorView>,
) -> bool {
    exists|m: Log, x: Result<(), ErrorView>|
        #[trigger] host_prepared(interactive, a, m, x) && match x {
            Err(error) => b == m && r == Err::<DeployView, ErrorView>(error),
            Ok(_) => deployed_when_prepared(platform.os, source, plan, domain, m, b, r),
        }
}

pub open spec fn deployed_for_real(
    source: Seq<char>,
    plan: ProjectPlan,
    domain: Option<Seq<char>>,
    interactive: bool,
    a: Log,
    b: Log,
    r: Result<DeployView, ErrorView>,
) -> bool {
    exists|m: Log, x: Result<HostPlatform, ErrorView>|
        #[trigger] inspection_step("inspect host"@, a, m, x) && match x {
            Err(error) => b == m && r == Err::<DeployView, ErrorView>(error),
            Ok(platform) => deployed_on_platform(
                platform,
                source,
                plan,
                domain,
                interactive,
                m,
                b,
                r,
            ),
        }
}

/// A project was deployed: on a host that was prepared, under its lock.
pub open spec fn deployed(
    source: Seq<char>,
    plan: ProjectPlan,
    domain: Option<Seq<char>>,
    dry_run: bool,
    interactive: bool,
    a: Log,
    b: Log,
    r: Result<DeployView, ErrorView>,
) -> bool {
    if dry_run {
        deployed_unlocked(source, plan, domain, true, a, b, r)
    } else {
        deployed_for_real(source, plan, domain, interactive, a, b, r)
    }
}

fn refuse_lock<T: RemoteHost, P: ProgressReporter>(
    session: &mut Session<T>,
    reporter: &P,
    root: &str,
    app: &str,
    owner: &str,
)
    ensures
        final(session).peer() == old(session).peer(),
        lock_refused(root@, app@, owner@, old(session)@, final(session)@),
{
    if session.cancelled(reporter) {
        let unlock = release_deploy_lock(root, app, owner);
        let ghost middle = session@;
        let outcome = do_to_the_end(session, reporter, "release deployment lock", unlock);
        assert(lock_released(root@, app@, owner@, middle, session@, unit_outcome(outcome)));
    }
}

fn deploy_locked<T: DeployHost, P: ProgressReporter>(
    session: &mut Session<T>,
    reporter: &P,
    root: &str,
    owner: &str,
    source: &str,
    plan: &ProjectPlan,
    domain: Option<&str>,
) -> (r: Result<DeployResult, CiaoError>)
    ensures
        final(session).peer() == old(session).peer(),
        deployed_locked(
            root@,
            owner@,
            source@,
            *plan,
            opt_str(domain),
            old(session)@,
            final(session)@,
            deploy_outcome(r),
        ),
{
    let result = deploy_unlocked(session, source, plan, domain, false, reporter);
    let unlock = release_deploy_lock(root, plan.name.as_str(), owner);
    let ghost middle = session@;
    let unlocked = do_to_the_end(session, reporter, "release deployment lock", unlock);
    assert(lock_released(
        root@,
        plan.name@,
        owner@,
        middle,
        session@,
        unit_outcome(unlocked),
    ));
    let ghost before = deploy_outcome(result);
    let ghost after = unit_outcome(unlocked);
    let r = combine(result, unlocked);
    assert(unlocked_after(
        root@,
        plan.name@,
        owner@,
        before,
        middle,
        session@,
        deploy_outcome(r),
    ));
    r
}

fn deploy_as_owner<T: DeployHost, P: ProgressReporter>(
    session: &mut Session<T>,
    reporter: &P,
    root: &str,
    owner: &str,
    source: &str,
    plan: &ProjectPlan,
    domain: Option<&str>,
) -> (r: Result<DeployResult, CiaoError>)
    ensures
        final(session).peer() == old(session).peer(),
        deployed_as_owner(
            root@,
            owner@,
            source@,
            *plan,
            opt_str(domain),
            old(session)@,
            final(session)@,
            deploy_outcome(r),
        ),
{
    let mut steps = no_steps();
    let lock = acquire_deploy_lock(root, plan.name.as_str(), owner);
    put_step(&mut steps, "acquire deployment lock", lock);
    assert(steps_view(steps@) == lock_steps(root@, plan.name@, owner@));
    match run_steps(session, reporter, &steps) {
        Err(error) => {
            refuse_lock(session, reporter, root, plan.name.as_str(), owner);
            Err(error)
        },
        Ok(()) => deploy_locked(session, reporter, root, owner, source, plan, domain),
    }
}

fn deploy_on_platform<T: DeployHost, P: ProgressReporter>(
    session: &mut Session<T>,
    reporter: &P,
    platform: &HostPlatform,
    source: &str,
    plan: &ProjectPlan,
    domain: Option<&str>,
    host_mode: DeployHostMode,
) -> (r: Result<DeployResult, CiaoError>)
    ensures
        final(session).peer() == old(session).peer(),
        deployed_on_platform(
            *platform,
            source@,
            *plan,
            opt_str(domain),
            host_mode is Interactive,
            old(session)@,
            final(session)@,
            deploy_outcome(r),
        ),
{
    match host_mode {
        DeployHostMode::NonInteractive => {
            prepare_host_for_deploy(session, reporter)?;
        },
        DeployHostMode::Interactive => {
            prepare_host_for_deploy_interactive(session, reporter)?;
        },
    }
    let root = host_app_root(&platform.os);
    let owner = name_release(session);
    deploy_as_owner(session, reporter, root.as_str(), owner.as_str(), source, plan, domain)
}

/// Deploys a project. The host is prepared first; the release itself is made
/// under the deployment lock of the application.
pub fn deploy_with_mode<T: DeployHost, P: ProgressReporter>(
    session: &mut Session<T>,
    source: &str,
    plan: &ProjectPlan,
    domain: Option<&str>,
    dry_run: bool,
    reporter: &P,
    host_mode: DeployHostMode,
) -> (r: Result<DeployResult, CiaoError>)
    ensures
        final(session).peer() == old(session).peer(),
        deployed(
            source@,
            *plan,
            opt_str(domain),
            dry_run,
            host_mode is Interactive,
            old(session)@,
            final(session)@,
            deploy_outcome(r),
        ),
{
    if dry_run {
        return deploy_unlocked(session, source, plan, domain, true, reporter);
    }
    let platform = inspect_step(session, reporter, "inspect host")?;
    deploy_on_platform(session, reporter, &platform, source, plan, domain, host_mode)
}

pub fn deploy_with_reporter<T: DeployHost, P: ProgressReporter>(
    session: &mut Session<T>,
    source: &str,
    plan: &ProjectPlan,
    domain: Option<&str>,
    dry_run: bool,
    reporter: &P,
) -> (r: Result<DeployResult, CiaoError>)
    ensures
        final(session).peer() == old(session).peer(),
        deployed(
            source@,
            *plan,
            opt_str(domain),
            dry_run,
            false,
            old(session)@,
            final(session)@,
            deploy_outcome(r),
        ),
{
    deploy_with_mode(
        session,
        source,
        plan,
        domain,
        dry_run,
        reporter,
        DeployHostMode::NonInteractive,
    )
}

pub fn deploy<T: DeployHost>(
    session: &mut Session<T>,
    source: &str,
    plan: &ProjectPlan,
    domain: Option<&str>,
    dry_run: bool,
) -> (r: Result<DeployResult, CiaoError>)
    ensures
        final(session).peer() == old(session).peer(),
        deployed(
            source@,
            *plan,
            opt_str(domain),
            dry_run,
            false,
            old(session)@,
            final(session)@,
            deploy_outcome(r),
        ),
{
    deploy_with_reporter(session, source, plan, domain, dry_run, &NoopProgressReporter)
}

/// An interrupted deployment marker was removed.
pub open spec fn lock_recovered(app: Seq<char>, a: Log, b: Log, r: Result<(), ErrorView>) -> bool {
    match identifier_check("app name"@, app) {
        Err(error) => b == a && r == Err::<(), ErrorView>(error),
        Ok(_) => lock_recovered_for(app, a, b, r),
    }
}

pub open spec fn lock_recovered_for(
    app: Seq<char>,
    a: Log,
    b: Log,
    r: Result<(), ErrorView>,
) -> bool {
    exists|m: Log, x: Result<HostPlatform, ErrorView>|
        #[trigger] inspected(a, m, x) && match x {
            Err(error) => b == m && r == Err::<(), ErrorView>(error),
            Ok(platform) => performed(recover_lock_plan(app_root(platform.os), app), m, b, r),
        }
}

/// Removes only an interrupted deployment marker. This never stops processes;
/// callers must ask the human to confirm that no other deployment is active.
///
/// The contract fixes the one script that is sent. That the marker is gone
/// afterwards is the work of that script on the host.
pub fn recover_deploy_lock<T: RemoteHost>(session: &mut Session<T>, app: &str) -> (r: Result<
    (),
    CiaoError,
>)
    ensures
        final(session).peer() == old(session).peer(),
        lock_recovered(app@, old(session)@, final(session)@, unit_outcome(r)),
{
    validate_identifier("app name", app)?;
    let platform = session.inspect()?;
    let root = host_app_root(&platform.os);
    perform(session, recover_lock(root.as_str(), app))
}

} // verus!
