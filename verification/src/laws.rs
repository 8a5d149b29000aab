//! What holds of deployments as a whole, whatever the host answers.

use crate::candidate::{
    activate_command, build_plan, candidate_slot, hook_plan, manifest_plan, output_command,
    restart_steps, service_steps, slot_action_plan, slot_disable_plan, slot_enable_plan,
    slot_install_plan, slot_switch_steps, stable_install_plan, start_steps, static_build_steps,
    static_steps, upload_steps, with_build, with_candidate, with_hook, with_output_check,
    with_step, Job,
};
use crate::deploy::{
    brought_back, built_and_activated, combined, deployed, deployed_as_owner, deployed_locked,
    deployed_on_platform, deployed_unlocked, deployed_when_prepared, domain_routed,
    hardened_release_routed, inspection_step, local_routed, lock_recovered, lock_refused,
    lock_released, lock_steps, manifest_text_for, or_false, public_routed,
    public_routed_by_scheme, recovered, release_named, released, released_after_upload,
    released_at, released_with_manifest, restore_steps, routes_restored, service_activated,
    service_released, service_tried, slot_activated, slot_activation_in_step, slot_switched,
    unlocked_after, DeployView, SituationView,
};
use crate::domain::{
    fragment_built, local_domain_result, local_route_path, release_route_configured, route_plan,
};
use crate::error::ErrorView;
use crate::hooks::hooked;
use crate::host::host_prepared;
use crate::manifest::ReleaseManifest;
use crate::model::{
    HealthConfig, HostOs, HostPlatform, LifecycleAction, ProjectComponent, ProjectPlan,
    ProjectRole,
};
use crate::observe::{fragment_path, manifest_read, scheme_read};
use crate::operations::OperationView;
use crate::release::{
    app_root, harden_plan, health_command, recover_lock_plan, restore_plan,
};
use crate::remote::{clock_read, inspected, CommandView, Exchange, Log, Notice};
use crate::services::{
    action_plan, clear_slot_plan, disable_plan, enable_plan, is_slot, slot_unit_result, unit_name,
};
use crate::rollback::{
    back_steps, forward_steps, gone_back, gone_forward, rollback_failed, rollback_undone,
    routes_set, switch_to, unit_install_plan, with_slots_freed, Turn,
};
use crate::steps::{
    attempted, closed_with, guarded_error, lemma_ran_extends, lemma_sent_extends, opened,
    performed, ran, required, sent, stopped, StepView,
};
use crate::transaction::{all_undone, deploy_order, of_role, undone, with_error};
use crate::validate::valid_identifier;
use vstd::prelude::*;

verus! {

// ---------------------------------------------------------------------------
// Commands of a stage
// ---------------------------------------------------------------------------

/// A command of the stage was sent.
pub open spec fn is_stage(e: Exchange, stage: Seq<char>) -> bool {
    e matches Exchange::Exec(command, _) && command.stage == stage
}

/// The transcript `a` grew to `b`, and no command of the stage was sent.
pub open spec fn quiet(stage: Seq<char>, a: Log, b: Log) -> bool {
    &&& a.len() <= b.len()
    &&& b.take(a.len() as int) == a
    &&& forall|i: int| a.len() <= i < b.len() ==> !is_stage(#[trigger] b[i], stage)
}

/// The step sends a command of the stage.
pub open spec fn step_of_stage(step: StepView, stage: Seq<char>) -> bool {
    match step {
        StepView::Send(command) => command.stage == stage,
        StepView::Attempt(command, _) => command.stage == stage,
        StepView::Hook(command) => command.stage == stage,
        StepView::Guarded(command, cleanup) => command.stage == stage || cleanup.stage == stage,
        _ => false,
    }
}

/// None of the steps sends a command of the stage.
pub open spec fn without_stage(steps: Seq<StepView>, stage: Seq<char>) -> bool {
    forall|i: int| 0 <= i < steps.len() ==> !step_of_stage(#[trigger] steps[i], stage)
}

/// None of the commands is of the stage.
pub open spec fn plan_without_stage(
    plan: Result<Seq<CommandView>, ErrorView>,
    stage: Seq<char>,
) -> bool {
    plan matches Ok(commands) ==> forall|i: int|
        0 <= i < commands.len() ==> (#[trigger] commands[i]).stage != stage
}

proof fn lemma_quiet_joins(stage: Seq<char>, a: Log, m: Log, b: Log)
    requires
        quiet(stage, a, m),
        quiet(stage, m, b),
    ensures
        quiet(stage, a, b),
{
    assert(b.take(a.len() as int) =~= m.take(a.len() as int));
    assert forall|i: int| a.len() <= i < b.len() implies !is_stage(#[trigger] b[i], stage) by {
        if i < m.len() {
            assert(b[i] == m[i]);
        }
    }
}

proof fn lemma_quiet_push(stage: Seq<char>, a: Log, e: Exchange)
    requires
        !is_stage(e, stage),
    ensures
        quiet(stage, a, a.push(e)),
{
    assert(a.push(e).take(a.len() as int) =~= a);
}

proof fn lemma_quiet_same(stage: Seq<char>, a: Log)
    ensures
        quiet(stage, a, a),
{
    assert(a.take(a.len() as int) =~= a);
}

proof fn lemma_quiet_stop(
    stage: Seq<char>,
    open: Option<Seq<char>>,
    error: ErrorView,
    a: Log,
    b: Log,
    r: Result<(), ErrorView>,
)
    requires
        stopped(open, error, a, b, r),
    ensures
        quiet(stage, a, b),
{
    assert(b.take(a.len() as int) =~= a);
}

/// Steps that hold no command of a stage send none.
pub proof fn lemma_quiet_steps(
    stage: Seq<char>,
    steps: Seq<StepView>,
    open: Option<Seq<char>>,
    a: Log,
    b: Log,
    r: Result<(), ErrorView>,
)
    requires
        ran(steps, open, a, b, r),
        without_stage(steps, stage),
    ensures
        quiet(stage, a, b),
    decreases steps.len(),
{
    lemma_ran_extends(steps, open, a, b, r);
    if steps.len() > 0 {
        let rest = steps.skip(1);
        let n = a.len() as int;
        assert(without_stage(rest, stage));
        assert(!step_of_stage(steps[0], stage));
        match steps[0] {
            StepView::Begin(name) => {
                let next = b.take(n + 2);
                if b.len() >= n + 2 && ran(rest, Some(name), next, b, r) {
                    lemma_quiet_steps(stage, rest, Some(name), next, b, r);
                    assert(b[n] == next[n] && b[n + 1] == next[n + 1]);
                }
            },
            StepView::End => {
                match open {
                    Some(name) => {
                        let next = a.push(
                            Exchange::Notice(Notice::Finished, name),
                        );
                        lemma_quiet_steps(stage, rest, None, next, b, r);
                        lemma_quiet_push(stage, a, next.last());
                        lemma_quiet_joins(stage, a, next, b);
                    },
                    None => {
                        lemma_quiet_steps(stage, rest, None, a, b, r);
                    },
                }
            },
            StepView::Attempt(command, skip) => {
                let next = a.push(b[n]);
                let left = if skip <= rest.len() {
                    rest.skip(skip as int)
                } else {
                    Seq::empty()
                };
                assert(without_stage(left, stage));
                if b[n]->Exec_1 is Ok {
                    lemma_quiet_steps(stage, rest, open, next, b, r);
                } else {
                    lemma_quiet_steps(stage, left, open, next, b, r);
                }
                lemma_quiet_push(stage, a, b[n]);
                lemma_quiet_joins(stage, a, next, b);
            },
            StepView::Guarded(command, cleanup) => {
                let next = a.push(b[n]).push(b[n + 1]);
                lemma_quiet_push(stage, a, b[n]);
                lemma_quiet_push(stage, a.push(b[n]), b[n + 1]);
                lemma_quiet_joins(stage, a, a.push(b[n]), next);
                match guarded_error(b[n]->Exec_1, b[n + 1]->Exec_1, cleanup.stage) {
                    None => {
                        lemma_quiet_steps(stage, rest, open, next, b, r);
                    },
                    Some(error) => {
                        lemma_quiet_stop(stage, open, error, next, b, r);
                    },
                }
                lemma_quiet_joins(stage, a, next, b);
            },
            StepView::Fail(error) => {
                lemma_quiet_stop(stage, open, error, a, b, r);
            },
            _ => {
                let next = a.push(b[n]);
                lemma_quiet_push(stage, a, b[n]);
                if ran(rest, open, next, b, r) {
                    lemma_quiet_steps(stage, rest, open, next, b, r);
                } else {
                    assert(b.take(next.len() as int) =~= next);
                    assert(quiet(stage, next, b));
                }
                lemma_quiet_joins(stage, a, next, b);
            },
        }
    }
}

/// The command was sent and succeeded.
pub open spec fn succeeded(e: Exchange, command: CommandView) -> bool {
    e matches Exchange::Exec(sent, Ok(_)) && sent == command
}

/// The step gets the command through, or ends the work.
pub open spec fn demands(step: StepView, command: CommandView) -> bool {
    match step {
        StepView::Send(sent) => sent == command,
        StepView::Hook(sent) => sent == command,
        StepView::Guarded(sent, _) => sent == command,
        StepView::Fail(_) => true,
        _ => false,
    }
}

/// No attempt that fails leaves out more than these steps.
pub open spec fn contained(steps: Seq<StepView>) -> bool {
    forall|i: int|
        0 <= i < steps.len() ==> (#[trigger] steps[i] matches StepView::Attempt(_, skip) ==> i + 1
            + skip <= steps.len())
}

/// Steps succeed only where each command that one of them demands succeeded,
/// unless a failed attempt leaves it out.
pub proof fn lemma_demanded_command_succeeded(
    command: CommandView,
    at: int,
    steps: Seq<StepView>,
    open: Option<Seq<char>>,
    a: Log,
    b: Log,
    r: Result<(), ErrorView>,
) -> (j: int)
    requires
        ran(steps, open, a, b, r),
        r is Ok,
        0 <= at < steps.len(),
        contained(steps.take(at)),
        demands(steps[at], command),
    ensures
        a.len() <= j < b.len(),
        succeeded(b[j], command),
        !(steps[at] is Fail),
    decreases steps.len(),
{
    lemma_ran_extends(steps, open, a, b, r);
    let rest = steps.skip(1);
    let n = a.len() as int;
    if at > 0 {
        assert(demands(rest[at - 1], command));
        assert(steps.take(at)[0] == steps[0]);
        assert forall|i: int| 0 <= i < at - 1 implies (#[trigger] rest.take(
            at - 1,
        )[i] matches StepView::Attempt(_, skip) ==> i + 1 + skip <= at - 1) by {
            assert(rest.take(at - 1)[i] == steps.take(at)[i + 1]);
        }
    }
    match steps[0] {
        StepView::Attempt(_, skip) => {
            let next = a.push(b[n]);
            if b[n]->Exec_1 is Ok {
                lemma_demanded_command_succeeded(command, at - 1, rest, open, next, b, r)
            } else {
                let left = rest.skip(skip as int);
                let place = at - 1 - skip;
                assert forall|i: int| 0 <= i < place implies (#[trigger] left.take(
                    place,
                )[i] matches StepView::Attempt(_, more) ==> i + 1 + more <= place) by {
                    assert(left.take(place)[i] == rest.take(at - 1)[i + skip]);
                }
                lemma_demanded_command_succeeded(command, place, left, open, next, b, r)
            }
        },
        StepView::Begin(name) => lemma_demanded_command_succeeded(
            command,
            at - 1,
            rest,
            Some(name),
            b.take(n + 2),
            b,
            r,
        ),
        StepView::End => match open {
            Some(name) => lemma_demanded_command_succeeded(
                command,
                at - 1,
                rest,
                None,
                a.push(Exchange::Notice(Notice::Finished, name)),
                b,
                r,
            ),
            None => lemma_demanded_command_succeeded(command, at - 1, rest, None, a, b, r),
        },
        StepView::Guarded(_, _) => if at == 0 {
            n
        } else {
            lemma_demanded_command_succeeded(
                command,
                at - 1,
                rest,
                open,
                a.push(b[n]).push(b[n + 1]),
                b,
                r,
            )
        },
        _ => if at == 0 {
            n
        } else {
            lemma_demanded_command_succeeded(command, at - 1, rest, open, a.push(b[n]), b, r)
        },
    }
}

proof fn lemma_quiet_sent(
    stage: Seq<char>,
    commands: Seq<CommandView>,
    a: Log,
    b: Log,
    r: Result<(), ErrorView>,
)
    requires
        sent(commands, a, b, r),
        plan_without_stage(Ok(commands), stage),
    ensures
        quiet(stage, a, b),
    decreases commands.len(),
{
    let n = a.len() as int;
    if commands.len() == 0 {
        lemma_quiet_same(stage, a);
    } else {
        let next = a.push(b[n]);
        assert(commands[0].stage != stage);
        lemma_quiet_push(stage, a, b[n]);
        if b[n]->Exec_1 is Ok {
            assert(plan_without_stage(Ok(commands.skip(1)), stage));
            lemma_quiet_sent(stage, commands.skip(1), next, b, r);
        } else {
            lemma_quiet_same(stage, next);
        }
        lemma_quiet_joins(stage, a, next, b);
    }
}

/// An operation without commands of a stage sends none.
pub proof fn lemma_quiet_plan(
    stage: Seq<char>,
    plan: Result<Seq<CommandView>, ErrorView>,
    a: Log,
    b: Log,
    r: Result<(), ErrorView>,
)
    requires
        performed(plan, a, b, r),
        plan_without_stage(plan, stage),
    ensures
        quiet(stage, a, b),
{
    match plan {
        Ok(commands) => {
            lemma_quiet_sent(stage, commands, a, b, r);
        },
        Err(_) => {
            lemma_quiet_same(stage, a);
        },
    }
}

// ---------------------------------------------------------------------------
// The work before the activation
// ---------------------------------------------------------------------------

/// The stage of the command that makes a service the current release.
pub open spec fn activation() -> Seq<char> {
    "activate release"@
}

/// The release of a service became the current one, as far as the host was
/// told so.
pub open spec fn activates(job: Job, e: Exchange) -> bool {
    e matches Exchange::Exec(command, _) && command == activate_command(job, activation())
}

/// The new release answered its health check.
pub open spec fn answers(port: u16, health: HealthConfig, e: Exchange) -> bool {
    succeeded(e, health_command(port, health))
}

/// The stages that make a release the current one.
pub open spec fn is_activation(stage: Seq<char>) -> bool {
    stage == activation() || stage == "activate static release"@
}

proof fn lemma_stages(stage: Seq<char>)
    requires
        is_activation(stage),
    ensures
        "verify static output"@ != stage,
        "prepare upload staging"@ != stage,
        "finalize release"@ != stage,
        "write release manifest"@ != stage,
        "write release start script"@ != stage,
        "make release executable"@ != stage,
        "install dependencies"@ != stage,
        "build"@ != stage,
        "install service definition"@ != stage,
        "reload service manager"@ != stage,
        "service lifecycle"@ != stage,
        "verify service lifecycle"@ != stage,
        "healthcheck"@ != stage,
        "start macOS candidate"@ != stage,
        "stop macOS candidate"@ != stage,
        "run pre-activate hook"@ != stage,
        "harden release ownership"@ != stage,
        "prepare Caddy directory"@ != stage,
        "write Caddy route"@ != stage,
        "reload Caddy"@ != stage,
        "read existing domain scheme"@ != stage,
        "read release manifest"@ != stage,
{
    reveal_strlit("activate release");
    reveal_strlit("activate static release");
    assert("activate release"@[0] == 'a');
    assert("activate static release"@[0] == 'a');
    assert(stage[0] == 'a');
    reveal_strlit("verify static output");
    assert("verify static output"@[0] == 'v');
    reveal_strlit("prepare upload staging");
    assert("prepare upload staging"@[0] == 'p');
    reveal_strlit("finalize release");
    assert("finalize release"@[0] == 'f');
    reveal_strlit("write release manifest");
    assert("write release manifest"@[0] == 'w');
    reveal_strlit("write release start script");
    assert("write release start script"@[0] == 'w');
    reveal_strlit("make release executable");
    assert("make release executable"@[0] == 'm');
    reveal_strlit("install dependencies");
    assert("install dependencies"@[0] == 'i');
    reveal_strlit("build");
    assert("build"@[0] == 'b');
    reveal_strlit("install service definition");
    assert("install service definition"@[0] == 'i');
    reveal_strlit("reload service manager");
    assert("reload service manager"@[0] == 'r');
    reveal_strlit("service lifecycle");
    assert("service lifecycle"@[0] == 's');
    reveal_strlit("verify service lifecycle");
    assert("verify service lifecycle"@[0] == 'v');
    reveal_strlit("healthcheck");
    assert("healthcheck"@[0] == 'h');
    reveal_strlit("start macOS candidate");
    assert("start macOS candidate"@[0] == 's');
    reveal_strlit("stop macOS candidate");
    assert("stop macOS candidate"@[0] == 's');
    reveal_strlit("run pre-activate hook");
    assert("run pre-activate hook"@[0] == 'r');
    reveal_strlit("harden release ownership");
    assert("harden release ownership"@[0] == 'h');
    reveal_strlit("prepare Caddy directory");
    assert("prepare Caddy directory"@[0] == 'p');
    reveal_strlit("write Caddy route");
    assert("write Caddy route"@[0] == 'w');
    reveal_strlit("reload Caddy");
    assert("reload Caddy"@[0] == 'r');
    reveal_strlit("read existing domain scheme");
    assert("read existing domain scheme"@[0] == 'r');
    reveal_strlit("read release manifest");
    assert("read release manifest"@[0] == 'r');
}

/// What the steps of a new release have in common: no activation, no attempts.
pub open spec fn preparing(stage: Seq<char>, steps: Seq<StepView>) -> bool {
    &&& without_stage(steps, stage)
    &&& forall|i: int| 0 <= i < steps.len() ==> !(#[trigger] steps[i] is Attempt)
}

proof fn lemma_preparing_step(
    stage: Seq<char>,
    steps: Seq<StepView>,
    name: Seq<char>,
    plan: Result<Seq<CommandView>, ErrorView>,
)
    requires
        preparing(stage, steps),
        plan_without_stage(plan, stage),
    ensures
        preparing(stage, with_step(steps, name, plan)),
{
    assert(preparing(stage, required(plan)));
}

proof fn lemma_preparing_upload(stage: Seq<char>, job: Job, source: Seq<char>)
    requires
        is_activation(stage),
    ensures
        preparing(stage, upload_steps(job, source)),
{
    lemma_stages(stage);
}

proof fn lemma_preparing_manifest(stage: Seq<char>, job: Job, text: Result<Seq<char>, ErrorView>)
    requires
        is_activation(stage),
    ensures
        preparing(
            stage,
            with_step(Seq::empty(), "write release manifest"@, manifest_plan(job, text)),
        ),
{
    lemma_stages(stage);
    lemma_preparing_step(stage, Seq::empty(), "write release manifest"@, manifest_plan(job, text));
}

proof fn lemma_preparing_build(
    stage: Seq<char>,
    steps: Seq<StepView>,
    job: Job,
    name: Seq<char>,
    command: Option<String>,
)
    requires
        preparing(stage, steps),
        name != stage,
    ensures
        preparing(stage, with_build(steps, job, name, command)),
{
    match command {
        None => {},
        Some(command) => {
            assert(plan_without_stage(build_plan(job, name, command@), stage));
            lemma_preparing_step(stage, steps, name, build_plan(job, name, command@));
        },
    }
}

proof fn lemma_preparing_hook(
    stage: Seq<char>,
    steps: Seq<StepView>,
    job: Job,
    name: Seq<char>,
    command: Option<String>,
    hook: Seq<char>,
)
    requires
        preparing(stage, steps),
        hook != stage,
    ensures
        preparing(stage, with_hook(steps, job, name, command, hook)),
{
    match command {
        None => {},
        Some(command) => {
            assert(plan_without_stage(hook_plan(job, command@, hook), stage));
            assert(preparing(stage, hooked(hook_plan(job, command@, hook))));
        },
    }
}

proof fn lemma_preparing_start(stage: Seq<char>, job: Job, plan: ProjectPlan, port: u16)
    requires
        is_activation(stage),
    ensures
        preparing(stage, start_steps(job, plan, port)),
{
    lemma_stages(stage);
}

/// The slot of a new release, or the one unit of a macOS host.
pub open spec fn tries(os: HostOs, slot: Option<char>) -> bool {
    slot is Some || os is MacOs
}

proof fn lemma_preparing_candidate(
    stage: Seq<char>,
    steps: Seq<StepView>,
    job: Job,
    health: HealthConfig,
    port: u16,
    slot: Option<char>,
)
    requires
        is_activation(stage),
        preparing(stage, steps),
    ensures
        preparing(stage, with_candidate(steps, job, health, port, slot)),
{
    lemma_stages(stage);
    match slot {
        Some(slot) => {
            let install = slot_install_plan(job, slot);
            let start = slot_action_plan(job.os, job.app@, slot, LifecycleAction::Start);
            assert(plan_without_stage(install, stage));
            assert(plan_without_stage(start, stage));
            assert(preparing(stage, required(install)));
            assert(preparing(stage, required(start)));
        },
        None => {},
    }
}

proof fn lemma_preparing_service(
    stage: Seq<char>,
    job: Job,
    plan: ProjectPlan,
    port: u16,
    slot: Option<char>,
    fixed: bool,
)
    requires
        is_activation(stage),
    ensures
        preparing(stage, service_steps(job, plan, port, slot, fixed)),
{
    lemma_stages(stage);
    lemma_preparing_start(stage, job, plan, port);
    let started = start_steps(job, plan, port);
    lemma_preparing_build(stage, started, job, "install dependencies"@, plan.install_command);
    let installed = with_build(started, job, "install dependencies"@, plan.install_command);
    lemma_preparing_build(stage, installed, job, "build"@, plan.build_command);
    let built = with_build(installed, job, "build"@, plan.build_command);
    lemma_preparing_candidate(stage, built, job, plan.health, port, slot);
    let tried = if fixed {
        built.push(StepView::Begin("candidate healthcheck"@)).push(StepView::End)
    } else {
        with_candidate(built, job, plan.health, port, slot)
    };
    lemma_preparing_hook(
        stage,
        tried,
        job,
        "pre-activate hook"@,
        plan.hooks.pre_activate,
        "run pre-activate hook"@,
    );
}

proof fn lemma_quiet_trial(
    job: Job,
    plan: ProjectPlan,
    port: u16,
    slot: Option<char>,
    a: Log,
    b: Log,
    r: Result<(), ErrorView>,
)
    requires
        service_tried(job, plan, port, slot, a, b, r),
    ensures
        quiet(activation(), a, b),
{
    reveal(service_tried);
    let steps = service_steps(job, plan, port, slot, plan.deploy_port_explicit);
    lemma_preparing_service(activation(), job, plan, port, slot, plan.deploy_port_explicit);
    lemma_quiet_steps(activation(), steps, None, a, b, r);
}

/// A candidate that got through its steps answered its health check.
proof fn lemma_candidate_answered(
    job: Job,
    plan: ProjectPlan,
    port: u16,
    slot: Option<char>,
    a: Log,
    b: Log,
) -> (j: int)
    requires
        service_tried(job, plan, port, slot, a, b, Ok(())),
        !plan.deploy_port_explicit,
        tries(job.os, slot),
    ensures
        a.len() <= j < b.len(),
        answers(port, plan.health, b[j]),
{
    reveal(service_tried);
    let steps = service_steps(job, plan, port, slot, false);
    let built = with_build(
        with_build(
            start_steps(job, plan, port),
            job,
            "install dependencies"@,
            plan.install_command,
        ),
        job,
        "build"@,
        plan.build_command,
    );
    let tried = with_candidate(built, job, plan.health, port, slot);
    let at = tried.len() - 2;
    lemma_preparing_service(activation(), job, plan, port, slot, false);
    assert(demands(tried[at], health_command(port, plan.health)));
    assert(steps[at] == tried[at]);
    lemma_demanded_command_succeeded(
        health_command(port, plan.health),
        at,
        steps,
        None,
        a,
        b,
        Ok(()),
    )
}

// ---------------------------------------------------------------------------
// The routes of a release
// ---------------------------------------------------------------------------

proof fn lemma_quiet_fragment(
    root: Seq<char>,
    app: Seq<char>,
    release: Seq<char>,
    domain: Seq<char>,
    plain: bool,
    a: Log,
    b: Log,
    r: Result<Seq<char>, ErrorView>,
)
    requires
        fragment_built(root, app, release, domain, plain, a, b, r),
    ensures
        quiet(activation(), a, b),
{
    let (m, x): (Log, Result<ReleaseManifest, ErrorView>) = choose|
        m: Log,
        x: Result<ReleaseManifest, ErrorView>,
    |
        #[trigger] manifest_read(root, app, release, a, m, x) && match x {
            Err(error) => b == m && r == Err::<Seq<char>, ErrorView>(error),
            Ok(files) => if files.static_directory is Some {
                b == m
            } else {
                exists|again: Result<ReleaseManifest, ErrorView>| #[trigger]
                    manifest_read(root, app, release, m, b, again)
            },
        };
    lemma_quiet_manifest(root, app, release, a, m, x);
    if b != m {
        let again = choose|again: Result<ReleaseManifest, ErrorView>| #[trigger]
            manifest_read(root, app, release, m, b, again);
        lemma_quiet_manifest(root, app, release, m, b, again);
        lemma_quiet_joins(activation(), a, m, b);
    }
}

proof fn lemma_quiet_manifest(
    root: Seq<char>,
    app: Seq<char>,
    release: Seq<char>,
    a: Log,
    b: Log,
    r: Result<ReleaseManifest, ErrorView>,
)
    requires
        manifest_read(root, app, release, a, b, r),
    ensures
        quiet(activation(), a, b),
{
    lemma_stages(activation());
    if b == a {
        lemma_quiet_same(activation(), a);
    } else {
        lemma_quiet_push(activation(), a, b.last());
    }
}

proof fn lemma_quiet_scheme(app: Seq<char>, a: Log, b: Log, r: Result<bool, ErrorView>)
    requires
        scheme_read(app, a, b, r),
    ensures
        quiet(activation(), a, b),
{
    lemma_stages(activation());
    if b == a {
        lemma_quiet_same(activation(), a);
    } else {
        lemma_quiet_push(activation(), a, b.last());
    }
}

proof fn lemma_quiet_route(
    job: Job,
    domain: Seq<char>,
    local: bool,
    a: Log,
    b: Log,
    r: Result<(), ErrorView>,
)
    requires
        release_route_configured(
            job.os,
            job.root@,
            job.app@,
            job.release@,
            domain,
            local,
            a,
            b,
            r,
        ),
    ensures
        quiet(activation(), a, b),
{
    lemma_stages(activation());
    let path = if local {
        local_route_path(job.app@)
    } else {
        fragment_path(job.app@)
    };
    let prepare = Some("prepare Caddy directory"@);
    let (m, x): (Log, Result<Seq<char>, ErrorView>) = choose|m: Log, x: Result<Seq<char>, ErrorView>|
        #[trigger] fragment_built(job.root@, job.app@, job.release@, domain, local, a, m, x)
            && match x {
            Err(error) => b == m && r == Err::<(), ErrorView>(error),
            Ok(fragment) => performed(
                route_plan(
                    job.os,
                    path,
                    fragment,
                    prepare,
                    "write Caddy route"@,
                    "reload Caddy"@,
                ),
                m,
                b,
                r,
            ),
        };
    lemma_quiet_fragment(job.root@, job.app@, job.release@, domain, local, a, m, x);
    match x {
        Err(_) => {},
        Ok(fragment) => {
            let plan = route_plan(
                job.os,
                path,
                fragment,
                prepare,
                "write Caddy route"@,
                "reload Caddy"@,
            );
            assert(plan_without_stage(plan, activation()));
            lemma_quiet_plan(activation(), plan, m, b, r);
            lemma_quiet_joins(activation(), a, m, b);
        },
    }
}

// ---------------------------------------------------------------------------
// A release is tried before it is activated
// ---------------------------------------------------------------------------

/// From `a` to `b` the transcript grew, and the release was activated at no
/// point before `since`.
pub open spec fn activated_from(since: int, a: Log, b: Log) -> bool {
    &&& a.len() <= b.len()
    &&& b.take(a.len() as int) == a
    &&& forall|i: int| a.len() <= i < b.len() && i < since ==> !is_stage(#[trigger] b[i], activation())
}

proof fn lemma_ran_grows(
    steps: Seq<StepView>,
    a: Log,
    b: Log,
    r: Result<(), ErrorView>,
)
    requires
        ran(steps, None, a, b, r),
    ensures
        activated_from(a.len() as int, a, b),
{
    lemma_ran_extends(steps, None, a, b, r);
}

proof fn lemma_joins(since: int, a: Log, m: Log, b: Log)
    requires
        quiet(activation(), a, m),
        activated_from(since, m, b),
        since >= m.len(),
    ensures
        activated_from(since, a, b),
{
    assert(b.take(a.len() as int) =~= m.take(a.len() as int));
    assert forall|i: int| a.len() <= i < b.len() && i < since implies !is_stage(
        #[trigger] b[i],
        activation(),
    ) by {
        if i < m.len() {
            assert(b[i] == m[i]);
        }
    }
}

/// Where the slot of a release takes over, its routes were written before: the
/// one of its local domain, and where it has a public domain the one of that.
pub open spec fn routed_by(job: Job, domain: Option<Seq<char>>, a: Log, m: Log) -> bool {
    exists|k: Log, n: Log, local: Seq<char>|
        #[trigger] locally_routed(job, local, k, n) && a.len() <= k.len() && n.len() <= m.len()
            && match domain {
            None => n == m,
            Some(domain) => publicly_routed(job, domain, n, m),
        }
}

pub open spec fn locally_routed(job: Job, local: Seq<char>, k: Log, n: Log) -> bool {
    local_domain_result(job.app@) == Ok::<Seq<char>, ErrorView>(local)
        && release_route_configured(
        job.os,
        job.root@,
        job.app@,
        job.release@,
        local,
        true,
        k,
        n,
        Ok(()),
    )
}

pub open spec fn publicly_routed(job: Job, domain: Seq<char>, n: Log, m: Log) -> bool {
    exists|k: Log, plain: bool|
        #[trigger] release_route_configured(
            job.os,
            job.root@,
            job.app@,
            job.release@,
            domain,
            plain,
            k,
            m,
            Ok(()),
        ) && n.len() <= k.len()
}

/// Up to `m` the release was not activated, and from there its slot took over.
pub open spec fn switched_from(
    m: Log,
    job: Job,
    health: HealthConfig,
    port: u16,
    slot: char,
    active: Option<char>,
    a: Log,
    b: Log,
    r: Result<(), ErrorView>,
) -> bool {
    &&& a.len() <= m.len() <= b.len()
    &&& b.take(m.len() as int) == m
    &&& activated_from(m.len() as int, a, b)
    &&& m != b ==> slot_switched(job, health, port, slot, active, m, b, r)
}

proof fn lemma_switched(
    job: Job,
    health: HealthConfig,
    port: u16,
    slot: char,
    active: Option<char>,
    a: Log,
    m: Log,
    b: Log,
    r: Result<(), ErrorView>,
)
    requires
        quiet(activation(), a, m),
        slot_switched(job, health, port, slot, active, m, b, r),
    ensures
        switched_from(m, job, health, port, slot, active, a, b, r),
{
    reveal(slot_switched);
    lemma_ran_grows(slot_switch_steps(job, health, port, slot, active), m, b, r);
    lemma_joins(m.len() as int, a, m, b);
}

proof fn lemma_not_switched(
    job: Job,
    health: HealthConfig,
    port: u16,
    slot: char,
    active: Option<char>,
    a: Log,
    b: Log,
    r: Result<(), ErrorView>,
)
    requires
        quiet(activation(), a, b),
    ensures
        switched_from(b, job, health, port, slot, active, a, b, r),
{
    assert(b.take(b.len() as int) =~= b);
}

proof fn lemma_public_route_comes_first(
    job: Job,
    health: HealthConfig,
    port: u16,
    slot: char,
    active: Option<char>,
    domain: Seq<char>,
    a: Log,
    n: Log,
    b: Log,
    r: Result<(), ErrorView>,
) -> (m: Log)
    requires
        quiet(activation(), a, n),
        public_routed_by_scheme(job, health, port, slot, active, domain, n, b, r),
    ensures
        switched_from(m, job, health, port, slot, active, a, b, r),
        n.len() <= m.len(),
        m != b ==> publicly_routed(job, domain, n, m),
{
    let (s, plain): (Log, Result<bool, ErrorView>) = choose|s: Log, plain: Result<bool, ErrorView>|
        #[trigger] scheme_read(job.app@, n, s, plain) && public_routed(
            job,
            health,
            port,
            slot,
            active,
            domain,
            or_false(plain),
            s,
            b,
            r,
        );
    lemma_quiet_scheme(job.app@, n, s, plain);
    lemma_quiet_joins(activation(), a, n, s);
    let (m, z): (Log, Result<(), ErrorView>) = choose|m: Log, z: Result<(), ErrorView>|
        #[trigger] release_route_configured(
            job.os,
            job.root@,
            job.app@,
            job.release@,
            domain,
            or_false(plain),
            s,
            m,
            z,
        ) && match z {
            Err(error) => b == m && r == Err::<(), ErrorView>(error),
            Ok(_) => slot_switched(job, health, port, slot, active, m, b, r),
        };
    lemma_quiet_route(job, domain, or_false(plain), s, m, z);
    lemma_quiet_joins(activation(), a, s, m);
    if z is Err {
        lemma_not_switched(job, health, port, slot, active, a, b, r);
    } else {
        lemma_switched(job, health, port, slot, active, a, m, b, r);
        assert(z->Ok_0 =~= ());
        assert(publicly_routed(job, domain, n, m));
    }
    m
}

proof fn lemma_local_route_comes_first(
    job: Job,
    health: HealthConfig,
    port: u16,
    slot: char,
    active: Option<char>,
    domain: Option<Seq<char>>,
    local: Seq<char>,
    a: Log,
    h: Log,
    b: Log,
    r: Result<(), ErrorView>,
) -> (m: Log)
    requires
        quiet(activation(), a, h),
        local_domain_result(job.app@) == Ok::<Seq<char>, ErrorView>(local),
        local_routed(job, health, port, slot, active, domain, local, h, b, r),
    ensures
        switched_from(m, job, health, port, slot, active, a, b, r),
        m != b ==> routed_by(job, domain, a, m),
{
    let (n, y): (Log, Result<(), ErrorView>) = choose|n: Log, y: Result<(), ErrorView>|
        #[trigger] release_route_configured(
            job.os,
            job.root@,
            job.app@,
            job.release@,
            local,
            true,
            h,
            n,
            y,
        ) && match y {
            Err(error) => b == n && r == Err::<(), ErrorView>(error),
            Ok(_) => domain_routed(job, health, port, slot, active, domain, n, b, r),
        };
    lemma_quiet_route(job, local, true, h, n, y);
    lemma_quiet_joins(activation(), a, h, n);
    if y is Err {
        lemma_not_switched(job, health, port, slot, active, a, b, r);
        b
    } else {
        assert(y->Ok_0 =~= ());
        assert(locally_routed(job, local, h, n));
        match domain {
            None => {
                lemma_switched(job, health, port, slot, active, a, n, b, r);
                n
            },
            Some(domain) => lemma_public_route_comes_first(
                job,
                health,
                port,
                slot,
                active,
                domain,
                a,
                n,
                b,
                r,
            ),
        }
    }
}

/// The slot of a release takes over, if at all, once its routes are written:
/// before `m`, the transcript up to then, the release is not activated.
pub proof fn lemma_routes_come_first(
    job: Job,
    health: HealthConfig,
    port: u16,
    slot: char,
    active: Option<char>,
    domain: Option<Seq<char>>,
    a: Log,
    b: Log,
    r: Result<(), ErrorView>,
) -> (m: Log)
    requires
        slot_activated(job, health, port, slot, active, domain, a, b, r),
    ensures
        switched_from(m, job, health, port, slot, active, a, b, r),
        m != b ==> routed_by(job, domain, a, m),
{
    lemma_stages(activation());
    let harden = harden_plan(job.os, job.path());
    let (h, x): (Log, Result<(), ErrorView>) = choose|h: Log, x: Result<(), ErrorView>|
        #[trigger] performed(harden, a, h, x) && match x {
            Err(error) => b == h && r == Err::<(), ErrorView>(error),
            Ok(_) => hardened_release_routed(job, health, port, slot, active, domain, h, b, r),
        };
    assert(plan_without_stage(harden, activation()));
    lemma_quiet_plan(activation(), harden, a, h, x);
    if x is Err || local_domain_result(job.app@) is Err {
        assert(b == h);
        lemma_not_switched(job, health, port, slot, active, a, b, r);
        b
    } else {
        let local = local_domain_result(job.app@)->Ok_0;
        lemma_local_route_comes_first(
            job,
            health,
            port,
            slot,
            active,
            domain,
            local,
            a,
            h,
            b,
            r,
        )
    }
}

/// The transcript grows while a service is activated.
proof fn lemma_activation_grows(
    job: Job,
    health: HealthConfig,
    port: u16,
    slot: Option<char>,
    fixed: bool,
    active: Option<char>,
    domain: Option<Seq<char>>,
    a: Log,
    b: Log,
    r: Result<(), ErrorView>,
)
    requires
        service_activated(job, health, port, slot, fixed, active, domain, a, b, r),
    ensures
        a.len() <= b.len(),
        b.take(a.len() as int) == a,
{
    reveal(service_activated);
    match slot {
        None => {
            lemma_ran_extends(restart_steps(job, health, port, fixed), None, a, b, r);
        },
        Some(slot) => {
            let name = "activate service release"@;
            let (m, x): (Log, Result<(), ErrorView>) = choose|m: Log, x: Result<(), ErrorView>|
                #[trigger] opened(name, a, m, x) && match x {
                    Err(error) => b == m && r == Err::<(), ErrorView>(error),
                    Ok(_) => slot_activation_in_step(
                        job,
                        health,
                        port,
                        slot,
                        active,
                        domain,
                        m,
                        b,
                        r,
                    ),
                };
            assert(m.take(a.len() as int) =~= a);
            if x is Ok {
                let (n, y): (Log, Result<(), ErrorView>) = choose|n: Log, y: Result<(), ErrorView>|
                    #[trigger] slot_activated(
                        job,
                        health,
                        port,
                        slot,
                        active,
                        domain,
                        m,
                        n,
                        y,
                    ) && closed_with(name, y, n, b, r);
                lemma_routes_come_first(job, health, port, slot, active, domain, m, n, y);
                assert(b.take(n.len() as int) =~= n);
                assert(b.take(a.len() as int) =~= m.take(a.len() as int));
            }
        },
    }
}

/// [`lemma_release_is_tried_before_it_is_activated`], once the source is on the
/// host.
proof fn lemma_service_is_tried(
    job: Job,
    plan: ProjectPlan,
    port: u16,
    active: Option<char>,
    domain: Option<Seq<char>>,
    a: Log,
    d: Log,
    b: Log,
    r: Result<(), ErrorView>,
    i: int,
) -> (j: int)
    requires
        quiet(activation(), a, d),
        service_released(job, plan, port, active, domain, d, b, r),
        plan.app_type is Service,
        !plan.deploy_port_explicit,
        job.os is Linux || job.os is MacOs,
        active matches Some(slot) ==> is_slot(slot),
        a.len() <= i < b.len(),
        is_stage(b[i], activation()),
    ensures
        a.len() <= j < i,
        answers(port, plan.health, b[j]),
{
    let slot = candidate_slot(job.os, plan.app_type, false, active);
    let (t, z): (Log, Result<(), ErrorView>) = choose|t: Log, z: Result<(), ErrorView>|
        #[trigger] service_tried(job, plan, port, slot, d, t, z) && match z {
            Err(error) => b == t && r == Err::<(), ErrorView>(error),
            Ok(_) => service_activated(
                job,
                plan.health,
                port,
                slot,
                false,
                active,
                domain,
                t,
                b,
                r,
            ),
        };
    lemma_quiet_trial(job, plan, port, slot, d, t, z);
    lemma_quiet_joins(activation(), a, d, t);
    assert(z->Ok_0 =~= ());
    lemma_activation_grows(job, plan.health, port, slot, false, active, domain, t, b, r);
    let j = lemma_candidate_answered(job, plan, port, slot, d, t);
    assert(b[j] == b.take(t.len() as int)[j]);
    if i < t.len() {
        assert(b[i] == b.take(t.len() as int)[i]);
        assert(!is_stage(t[i], activation()));
    }
    j
}

/// What comes before the build activates nothing: the upload, the clock and the
/// manifest.
proof fn lemma_source_is_there_first(
    stage: Seq<char>,
    job: Job,
    source: Seq<char>,
    plan: ProjectPlan,
    port: Option<u16>,
    active: Option<char>,
    domain: Option<Seq<char>>,
    a: Log,
    b: Log,
    r: Result<(), ErrorView>,
    i: int,
) -> (d: Log)
    requires
        is_activation(stage),
        released(job, source, plan, port, active, domain, a, b, r),
        a.len() <= i < b.len(),
        is_stage(b[i], stage),
    ensures
        quiet(stage, a, d),
        built_and_activated(job, plan, port, active, domain, d, b, r),
{
    reveal(released);
    let (u, x): (Log, Result<(), ErrorView>) = choose|u: Log, x: Result<(), ErrorView>|
        #[trigger] ran(upload_steps(job, source), None, a, u, x) && match x {
            Err(error) => b == u && r == Err::<(), ErrorView>(error),
            Ok(_) => released_after_upload(
                job,
                source,
                plan,
                port,
                active,
                domain,
                u,
                b,
                r,
            ),
        };
    lemma_preparing_upload(stage, job, source);
    lemma_quiet_steps(stage, upload_steps(job, source), None, a, u, x);
    assert(is_stage(b[i], stage));
    assert(x is Ok);
    let (c, seconds, nanos): (Log, u64, u32) = choose|c: Log, seconds: u64, nanos: u32|
        #[trigger] clock_read(u, c, seconds, nanos) && released_at(
            job,
            source,
            plan,
            port,
            active,
            domain,
            seconds,
            c,
            b,
            r,
        );
    lemma_quiet_push(stage, u, c.last());
    lemma_quiet_joins(stage, a, u, c);
    let text = choose|text: Result<Seq<char>, ErrorView>|
        #[trigger] manifest_text_for(job, source, plan, port, seconds, text)
            && released_with_manifest(job, plan, port, active, domain, text, c, b, r);
    let describing = with_step(Seq::empty(), "write release manifest"@, manifest_plan(job, text));
    let (d, y): (Log, Result<(), ErrorView>) = choose|d: Log, y: Result<(), ErrorView>|
        #[trigger] ran(describing, None, c, d, y) && match y {
            Err(error) => b == d && r == Err::<(), ErrorView>(error),
            Ok(_) => built_and_activated(job, plan, port, active, domain, d, b, r),
        };
    lemma_preparing_manifest(stage, job, text);
    lemma_quiet_steps(stage, describing, None, c, d, y);
    lemma_quiet_joins(stage, a, c, d);
    assert(y is Ok);
    d
}

/// A new release of a service is activated only after it answered its health
/// check beside the running one: where the build, the health check or the
/// pre-activate hook fails, the running release stays the current one.
///
/// A project with a fixed port is left out: its port cannot be bound twice.
pub proof fn lemma_release_is_tried_before_it_is_activated(
    job: Job,
    source: Seq<char>,
    plan: ProjectPlan,
    port: u16,
    active: Option<char>,
    domain: Option<Seq<char>>,
    a: Log,
    b: Log,
    r: Result<(), ErrorView>,
    i: int,
) -> (j: int)
    requires
        released(job, source, plan, Some(port), active, domain, a, b, r),
        plan.app_type is Service,
        !plan.deploy_port_explicit,
        job.os is Linux || job.os is MacOs,
        active matches Some(slot) ==> is_slot(slot),
        a.len() <= i < b.len(),
        activates(job, b[i]),
    ensures
        a.len() <= j < i,
        answers(port, plan.health, b[j]),
{
    let d = lemma_source_is_there_first(
        activation(),
        job,
        source,
        plan,
        Some(port),
        active,
        domain,
        a,
        b,
        r,
        i,
    );
    lemma_service_is_tried(job, plan, port, active, domain, a, d, b, r, i)
}

/// A command of the project, run in the release under this name, succeeded.
pub open spec fn build_succeeded(
    job: Job,
    name: Seq<char>,
    command: Seq<char>,
    e: Exchange,
) -> bool {
    build_plan(job, name, command) matches Ok(commands) && commands.len() == 1 && succeeded(
        e,
        commands[0],
    )
}

/// The command of the project that has this name succeeded between two places
/// of the transcript, where the project has such a command.
pub open spec fn built_between(
    job: Job,
    name: Seq<char>,
    command: Option<String>,
    from: int,
    b: Log,
    to: int,
) -> bool {
    command matches Some(command) ==> exists|j: int|
        from <= j < to && build_succeeded(job, name, command@, #[trigger] b[j])
}

/// The steps `steps` begin with `before`.
spec fn led_by(before: Seq<StepView>, steps: Seq<StepView>) -> bool {
    before.len() <= steps.len() && steps.take(before.len() as int) == before
}

proof fn lemma_led_by(first: Seq<StepView>, second: Seq<StepView>, third: Seq<StepView>)
    requires
        led_by(first, second),
        led_by(second, third),
    ensures
        led_by(first, third),
{
    assert(third.take(first.len() as int) =~= second.take(first.len() as int));
}

proof fn lemma_build_is_added(
    steps: Seq<StepView>,
    job: Job,
    name: Seq<char>,
    command: Option<String>,
)
    ensures
        led_by(steps, with_build(steps, job, name, command)),
{
    assert(with_build(steps, job, name, command).take(steps.len() as int) =~= steps);
}

proof fn lemma_candidate_is_added(
    steps: Seq<StepView>,
    job: Job,
    health: HealthConfig,
    port: u16,
    slot: Option<char>,
)
    ensures
        led_by(steps, with_candidate(steps, job, health, port, slot)),
{
    assert(with_candidate(steps, job, health, port, slot).take(steps.len() as int) =~= steps);
}

proof fn lemma_hook_is_added(
    steps: Seq<StepView>,
    job: Job,
    name: Seq<char>,
    command: Option<String>,
    stage: Seq<char>,
)
    ensures
        led_by(steps, with_hook(steps, job, name, command, stage)),
{
    assert(with_hook(steps, job, name, command, stage).take(steps.len() as int) =~= steps);
}

/// The steps of a service begin with its build.
proof fn lemma_service_begins_with_build(
    job: Job,
    plan: ProjectPlan,
    port: u16,
    slot: Option<char>,
    fixed: bool,
    installed: Seq<StepView>,
    built: Seq<StepView>,
)
    requires
        installed == with_build(
            start_steps(job, plan, port),
            job,
            "install dependencies"@,
            plan.install_command,
        ),
        built == with_build(installed, job, "build"@, plan.build_command),
    ensures
        led_by(installed, service_steps(job, plan, port, slot, fixed)),
        led_by(built, service_steps(job, plan, port, slot, fixed)),
{
    let tried = if fixed {
        built.push(StepView::Begin("candidate healthcheck"@)).push(StepView::End)
    } else {
        with_candidate(built, job, plan.health, port, slot)
    };
    if fixed {
        assert(tried.take(built.len() as int) =~= built);
    } else {
        lemma_candidate_is_added(built, job, plan.health, port, slot);
    }
    lemma_hook_is_added(
        tried,
        job,
        "pre-activate hook"@,
        plan.hooks.pre_activate,
        "run pre-activate hook"@,
    );
    lemma_led_by(built, tried, service_steps(job, plan, port, slot, fixed));
    lemma_build_is_added(installed, job, "build"@, plan.build_command);
    lemma_led_by(installed, built, service_steps(job, plan, port, slot, fixed));
}

/// A service that got through its steps was built.
proof fn lemma_service_is_built(
    job: Job,
    plan: ProjectPlan,
    port: u16,
    slot: Option<char>,
    a: Log,
    b: Log,
)
    requires
        service_tried(job, plan, port, slot, a, b, Ok(())),
    ensures
        built_between(
            job,
            "install dependencies"@,
            plan.install_command,
            a.len() as int,
            b,
            b.len() as int,
        ),
        built_between(job, "build"@, plan.build_command, a.len() as int, b, b.len() as int),
{
    reveal(service_tried);
    let fixed = plan.deploy_port_explicit;
    let steps = service_steps(job, plan, port, slot, fixed);
    let started = start_steps(job, plan, port);
    let installed = with_build(started, job, "install dependencies"@, plan.install_command);
    let built = with_build(installed, job, "build"@, plan.build_command);
    lemma_preparing_service(activation(), job, plan, port, slot, fixed);
    lemma_service_begins_with_build(job, plan, port, slot, fixed, installed, built);
    if let Some(command) = plan.install_command {
        lemma_build_got_through(
            job,
            "install dependencies"@,
            command@,
            started,
            steps,
            a,
            b,
        );
    }
    if let Some(command) = plan.build_command {
        lemma_build_got_through(job, "build"@, command@, installed, steps, a, b);
    }
}

/// Steps that begin with `before` and then a command of the project, and that
/// all succeeded.
proof fn lemma_build_got_through(
    job: Job,
    name: Seq<char>,
    command: Seq<char>,
    before: Seq<StepView>,
    steps: Seq<StepView>,
    a: Log,
    b: Log,
)
    requires
        ran(steps, None, a, b, Ok(())),
        preparing(activation(), steps),
        led_by(with_step(before, name, build_plan(job, name, command)), steps),
    ensures
        exists|j: int|
            a.len() <= j < b.len() && build_succeeded(job, name, command, #[trigger] b[j]),
{
    let plan = build_plan(job, name, command);
    let all = with_step(before, name, plan);
    let at = before.len() as int + 1;
    assert(all[at] == required(plan)[0]);
    assert(steps[at] == steps.take(all.len() as int)[at]);
    let sent = match plan {
        Ok(commands) => commands[0],
        Err(_) => arbitrary(),
    };
    let j = lemma_demanded_command_succeeded(sent, at, steps, None, a, b, Ok(()));
    assert(build_succeeded(job, name, command, b[j]));
}

/// A new release of a service is activated only after its dependencies were
/// installed and it was built, as far as the project has commands for that: where
/// one of them fails, the running release stays the current one. This holds of
/// every service, also of one with a fixed port.
pub proof fn lemma_service_is_built_before_it_is_activated(
    job: Job,
    source: Seq<char>,
    plan: ProjectPlan,
    port: u16,
    active: Option<char>,
    domain: Option<Seq<char>>,
    a: Log,
    b: Log,
    r: Result<(), ErrorView>,
    i: int,
)
    requires
        released(job, source, plan, Some(port), active, domain, a, b, r),
        a.len() <= i < b.len(),
        activates(job, b[i]),
    ensures
        built_between(
            job,
            "install dependencies"@,
            plan.install_command,
            a.len() as int,
            b,
            i,
        ),
        built_between(job, "build"@, plan.build_command, a.len() as int, b, i),
{
    let d = lemma_source_is_there_first(
        activation(),
        job,
        source,
        plan,
        Some(port),
        active,
        domain,
        a,
        b,
        r,
        i,
    );
    let fixed = plan.deploy_port_explicit;
    let slot = candidate_slot(job.os, plan.app_type, fixed, active);
    let (t, z): (Log, Result<(), ErrorView>) = choose|t: Log, z: Result<(), ErrorView>|
        #[trigger] service_tried(job, plan, port, slot, d, t, z) && match z {
            Err(error) => b == t && r == Err::<(), ErrorView>(error),
            Ok(_) => service_activated(
                job,
                plan.health,
                port,
                slot,
                fixed,
                active,
                domain,
                t,
                b,
                r,
            ),
        };
    lemma_quiet_trial(job, plan, port, slot, d, t, z);
    lemma_quiet_joins(activation(), a, d, t);
    if z is Err {
        assert(!is_stage(b[i], activation()));
    }
    assert(z->Ok_0 =~= ());
    lemma_activation_grows(job, plan.health, port, slot, fixed, active, domain, t, b, r);
    if i < t.len() {
        assert(b[i] == b.take(t.len() as int)[i]);
        assert(!is_stage(t[i], activation()));
    }
    lemma_service_is_built(job, plan, port, slot, d, t);
    lemma_built_earlier(job, "install dependencies"@, plan.install_command, a, d, t, b, i);
    lemma_built_earlier(job, "build"@, plan.build_command, a, d, t, b, i);
}

proof fn lemma_built_earlier(
    job: Job,
    name: Seq<char>,
    command: Option<String>,
    a: Log,
    d: Log,
    t: Log,
    b: Log,
    i: int,
)
    requires
        a.len() <= d.len(),
        t.len() <= i < b.len(),
        b.take(t.len() as int) == t,
        built_between(job, name, command, d.len() as int, t, t.len() as int),
    ensures
        built_between(job, name, command, a.len() as int, b, i),
{
    if let Some(command) = command {
        let j = choose|j: int|
            d.len() <= j < t.len() && build_succeeded(job, name, command@, #[trigger] t[j]);
        assert(b[j] == b.take(t.len() as int)[j]);
        assert(build_succeeded(job, name, command@, b[j]));
    }
}

// ---------------------------------------------------------------------------
// What comes before what
// ---------------------------------------------------------------------------

/// A step that demands a command, and comes before every step of a stage, gets
/// its command through before a command of the stage is sent.
pub proof fn lemma_demanded_command_comes_first(
    stage: Seq<char>,
    command: CommandView,
    at: int,
    upto: int,
    steps: Seq<StepView>,
    open: Option<Seq<char>>,
    a: Log,
    b: Log,
    r: Result<(), ErrorView>,
    i: int,
) -> (j: int)
    requires
        ran(steps, open, a, b, r),
        0 <= at < upto <= steps.len(),
        demands(steps[at], command),
        preparing(stage, steps.take(upto)),
        a.len() <= i < b.len(),
        is_stage(b[i], stage),
    ensures
        a.len() <= j < i,
        succeeded(b[j], command),
        !(steps[at] is Fail),
    decreases steps.len(),
{
    lemma_ran_extends(steps, open, a, b, r);
    let rest = steps.skip(1);
    let n = a.len() as int;
    assert(steps.take(upto)[0] == steps[0]);
    assert(!step_of_stage(steps[0], stage) && !(steps[0] is Attempt));
    assert(rest.take(upto - 1) =~= steps.take(upto).skip(1));
    assert(preparing(stage, rest.take(upto - 1)));
    if at > 0 {
        assert(demands(rest[at - 1], command));
    }
    match steps[0] {
        StepView::Begin(name) => {
            let next = b.take(n + 2);
            assert(b[n] == next[n] && b[n + 1] == next[n + 1]);
            lemma_demanded_command_comes_first(
                stage,
                command,
                at - 1,
                upto - 1,
                rest,
                Some(name),
                next,
                b,
                r,
                i,
            )
        },
        StepView::End => match open {
            Some(name) => {
                let next = a.push(Exchange::Notice(Notice::Finished, name));
                lemma_ran_extends(rest, None, next, b, r);
                assert(b[n] == b.take(n + 1)[n]);
                lemma_demanded_command_comes_first(
                    stage,
                    command,
                    at - 1,
                    upto - 1,
                    rest,
                    None,
                    next,
                    b,
                    r,
                    i,
                )
            },
            None => lemma_demanded_command_comes_first(
                stage,
                command,
                at - 1,
                upto - 1,
                rest,
                None,
                a,
                b,
                r,
                i,
            ),
        },
        StepView::Guarded(_, cleanup) => {
            let next = a.push(b[n]).push(b[n + 1]);
            match guarded_error(b[n]->Exec_1, b[n + 1]->Exec_1, cleanup.stage) {
                None => {},
                Some(error) => {
                    lemma_quiet_stop(stage, open, error, next, b, r);
                    assert(b[n] == b.take(n + 2)[n] && b[n + 1] == b.take(n + 2)[n + 1]);
                },
            }
            if at == 0 {
                n
            } else {
                lemma_demanded_command_comes_first(
                    stage,
                    command,
                    at - 1,
                    upto - 1,
                    rest,
                    open,
                    next,
                    b,
                    r,
                    i,
                )
            }
        },
        StepView::Fail(error) => {
            lemma_quiet_stop(stage, open, error, a, b, r);
            n
        },
        _ => {
            let next = a.push(b[n]);
            if !ran(rest, open, next, b, r) {
                assert(b.take(next.len() as int) =~= next);
                assert(quiet(stage, next, b));
            }
            if at == 0 {
                n
            } else {
                lemma_demanded_command_comes_first(
                    stage,
                    command,
                    at - 1,
                    upto - 1,
                    rest,
                    open,
                    next,
                    b,
                    r,
                    i,
                )
            }
        },
    }
}

/// The steps of a static site before its activation.
spec fn site_steps(job: Job, plan: ProjectPlan) -> Seq<StepView> {
    static_build_steps(job, plan).push(StepView::Begin("activate static release"@)) + required(
        harden_plan(job.os, job.path()),
    )
}

/// The place of the check of the output directory among them.
spec fn output_place(job: Job, plan: ProjectPlan) -> int {
    let installed = with_build(Seq::empty(), job, "install dependencies"@, plan.install_command);
    let built = with_build(installed, job, "build static site"@, plan.build_command);
    match plan.static_directory {
        None => built.len() as int,
        Some(_) => built.len() as int + 1,
    }
}

proof fn lemma_site_steps(job: Job, plan: ProjectPlan)
    ensures
        preparing("activate static release"@, site_steps(job, plan)),
{
    let stage = "activate static release"@;
    let installed = with_build(Seq::empty(), job, "install dependencies"@, plan.install_command);
    let built = with_build(installed, job, "build static site"@, plan.build_command);
    let verified = with_output_check(built, job, plan.static_directory);
    let harden = harden_plan(job.os, job.path());
    lemma_stages(stage);
    assert("build static site"@ != stage) by {
        reveal_strlit("build static site");
        reveal_strlit("activate static release");
        assert("build static site"@[0] == 'b');
        assert(stage[0] == 'a');
    }
    lemma_preparing_build(
        stage,
        Seq::empty(),
        job,
        "install dependencies"@,
        plan.install_command,
    );
    lemma_preparing_build(stage, installed, job, "build static site"@, plan.build_command);
    assert(preparing(stage, verified));
    lemma_preparing_hook(
        stage,
        verified,
        job,
        "pre-activate hook"@,
        plan.hooks.pre_activate,
        "run pre-activate hook"@,
    );
    assert(plan_without_stage(harden, stage));
    assert(preparing(stage, required(harden)));
}

proof fn lemma_output_place(job: Job, plan: ProjectPlan)
    ensures
        0 <= output_place(job, plan) < site_steps(job, plan).len(),
        match plan.static_directory {
            None => site_steps(job, plan)[output_place(job, plan)] is Fail,
            Some(directory) => site_steps(job, plan)[output_place(job, plan)] == StepView::Send(
                output_command(job, directory@),
            ),
        },
{
    let installed = with_build(Seq::empty(), job, "install dependencies"@, plan.install_command);
    let built = with_build(installed, job, "build static site"@, plan.build_command);
    let verified = with_output_check(built, job, plan.static_directory);
    let hooked = static_build_steps(job, plan);
    let at = output_place(job, plan);
    assert(verified.len() > at);
    assert(hooked[at] == verified[at]);
    assert(site_steps(job, plan)[at] == hooked[at]);
}

/// A step of a static site that comes before its activation gets its command
/// through before that.
proof fn lemma_site_command_comes_first(
    job: Job,
    plan: ProjectPlan,
    command: CommandView,
    at: int,
    a: Log,
    b: Log,
    r: Result<(), ErrorView>,
    i: int,
) -> (j: int)
    requires
        ran(static_steps(job, plan), None, a, b, r),
        0 <= at < site_steps(job, plan).len(),
        demands(site_steps(job, plan)[at], command),
        a.len() <= i < b.len(),
        is_stage(b[i], "activate static release"@),
    ensures
        a.len() <= j < i,
        succeeded(b[j], command),
        !(site_steps(job, plan)[at] is Fail),
{
    let steps = static_steps(job, plan);
    let before = site_steps(job, plan);
    lemma_site_steps(job, plan);
    assert(steps.take(before.len() as int) =~= before);
    assert(steps[at] == before[at]);
    lemma_demanded_command_comes_first(
        "activate static release"@,
        command,
        at,
        before.len() as int,
        steps,
        None,
        a,
        b,
        r,
        i,
    )
}

/// A command of the project among the steps of a static site.
proof fn lemma_site_build_comes_first(
    job: Job,
    plan: ProjectPlan,
    name: Seq<char>,
    command: Seq<char>,
    before: Seq<StepView>,
    a: Log,
    b: Log,
    r: Result<(), ErrorView>,
    i: int,
)
    requires
        ran(static_steps(job, plan), None, a, b, r),
        led_by(with_step(before, name, build_plan(job, name, command)), site_steps(job, plan)),
        a.len() <= i < b.len(),
        is_stage(b[i], "activate static release"@),
    ensures
        exists|j: int| a.len() <= j < i && build_succeeded(job, name, command, #[trigger] b[j]),
{
    let todo = build_plan(job, name, command);
    let all = with_step(before, name, todo);
    let at = before.len() as int + 1;
    let site = site_steps(job, plan);
    assert(all[at] == required(todo)[0]);
    assert(site[at] == site.take(all.len() as int)[at]);
    let sent = match todo {
        Ok(commands) => commands[0],
        Err(_) => arbitrary(),
    };
    let j = lemma_site_command_comes_first(job, plan, sent, at, a, b, r, i);
    assert(build_succeeded(job, name, command, b[j]));
}

/// The steps of a static site begin with its build.
proof fn lemma_site_begins_with_build(
    job: Job,
    plan: ProjectPlan,
    installed: Seq<StepView>,
    built: Seq<StepView>,
)
    requires
        installed == with_build(
            Seq::empty(),
            job,
            "install dependencies"@,
            plan.install_command,
        ),
        built == with_build(installed, job, "build static site"@, plan.build_command),
    ensures
        led_by(installed, site_steps(job, plan)),
        led_by(built, site_steps(job, plan)),
{
    let site = site_steps(job, plan);
    let verified = with_output_check(built, job, plan.static_directory);
    let hooked = static_build_steps(job, plan);
    assert(verified.take(built.len() as int) =~= built);
    lemma_hook_is_added(
        verified,
        job,
        "pre-activate hook"@,
        plan.hooks.pre_activate,
        "run pre-activate hook"@,
    );
    assert(site.take(hooked.len() as int) =~= hooked);
    lemma_led_by(built, verified, hooked);
    lemma_led_by(built, hooked, site);
    lemma_build_is_added(installed, job, "build static site"@, plan.build_command);
    lemma_led_by(installed, built, site);
}

/// A new release of a static site is activated only after its dependencies were
/// installed and it was built, as far as the project has commands for that, and
/// its output directory was found: where one of them fails, the site that is
/// shown stays as it is.
pub proof fn lemma_site_is_built_before_it_is_activated(
    job: Job,
    source: Seq<char>,
    plan: ProjectPlan,
    active: Option<char>,
    domain: Option<Seq<char>>,
    a: Log,
    b: Log,
    r: Result<(), ErrorView>,
    i: int,
) -> (j: int)
    requires
        released(job, source, plan, None, active, domain, a, b, r),
        a.len() <= i < b.len(),
        is_stage(b[i], "activate static release"@),
    ensures
        a.len() <= j < i,
        plan.static_directory is Some,
        succeeded(b[j], output_command(job, plan.static_directory->0@)),
        built_between(
            job,
            "install dependencies"@,
            plan.install_command,
            a.len() as int,
            b,
            i,
        ),
        built_between(
            job,
            "build static site"@,
            plan.build_command,
            a.len() as int,
            b,
            i,
        ),
{
    let stage = "activate static release"@;
    let d = lemma_source_is_there_first(
        stage,
        job,
        source,
        plan,
        None,
        active,
        domain,
        a,
        b,
        r,
        i,
    );
    lemma_ran_extends(static_steps(job, plan), None, d, b, r);
    if i < d.len() {
        assert(b[i] == b.take(d.len() as int)[i]);
        assert(!is_stage(d[i], stage));
    }
    let none = Seq::<StepView>::empty();
    let installed = with_build(none, job, "install dependencies"@, plan.install_command);
    let built = with_build(installed, job, "build static site"@, plan.build_command);
    lemma_site_begins_with_build(job, plan, installed, built);
    if let Some(command) = plan.install_command {
        lemma_site_build_comes_first(
            job,
            plan,
            "install dependencies"@,
            command@,
            none,
            d,
            b,
            r,
            i,
        );
    }
    if let Some(command) = plan.build_command {
        lemma_site_build_comes_first(
            job,
            plan,
            "build static site"@,
            command@,
            installed,
            d,
            b,
            r,
            i,
        );
    }
    let command = match plan.static_directory {
        None => output_command(job, Seq::empty()),
        Some(directory) => output_command(job, directory@),
    };
    lemma_output_place(job, plan);
    lemma_site_command_comes_first(job, plan, command, output_place(job, plan), d, b, r, i)
}

/// The slot of the running release is stopped only after the new one became
/// the current release and its slot was enabled.
pub proof fn lemma_old_slot_is_stopped_last(
    job: Job,
    health: HealthConfig,
    port: u16,
    slot: char,
    active: Option<char>,
    a: Log,
    b: Log,
    r: Result<(), ErrorView>,
    i: int,
) -> (j: (int, int))
    requires
        slot_switched(job, health, port, slot, active, a, b, r),
        job.os is Linux,
        a.len() <= i < b.len(),
        is_stage(b[i], "service lifecycle"@),
    ensures
        a.len() <= j.0 < i,
        succeeded(b[j.0], activate_command(job, activation())),
        a.len() <= j.1 < i,
        slot_unit_result(job.app@, slot) is Ok,
        slot_enable_plan(job.os, job.app@, slot) is Ok,
        succeeded(b[j.1], slot_enable_plan(job.os, job.app@, slot)->Ok_0[0]),
{
    reveal(slot_switched);
    let stage = "service lifecycle"@;
    let unit = unit_name(job.app@, false);
    let steps = slot_switch_steps(job, health, port, slot, active);
    let install = stable_install_plan(job);
    let disable = disable_plan(job.os, unit);
    let enable = slot_enable_plan(job.os, job.app@, slot);
    reveal_strlit("service lifecycle");
    reveal_strlit("activate release");
    reveal_strlit("install service definition");
    reveal_strlit("reload service manager");
    reveal_strlit("enable service at boot");
    reveal_strlit("disable service");
    assert(stage[0] == 's');
    assert("activate release"@[0] == 'a');
    assert("install service definition"@[0] == 'i');
    assert("reload service manager"@[0] == 'r');
    assert("enable service at boot"@[0] == 'e');
    assert("disable service"@[0] == 'd');
    assert(plan_without_stage(install, stage));
    assert(plan_without_stage(disable, stage));
    assert(plan_without_stage(enable, stage));
    assert(preparing(stage, required(install)));
    assert(preparing(stage, required(disable)));
    assert(preparing(stage, required(enable)));
    let first = Seq::<StepView>::empty().push(
        StepView::Send(activate_command(job, activation())),
    );
    let disabled = first + required(install) + required(disable);
    let enabled = disabled + required(enable);
    let upto = enabled.len() as int;
    assert(preparing(stage, enabled));
    assert(steps.take(upto) =~= enabled);
    assert(enabled[0] == first[0]);
    let one = lemma_demanded_command_comes_first(
        stage,
        activate_command(job, activation()),
        0,
        upto,
        steps,
        None,
        a,
        b,
        r,
        i,
    );
    let at = disabled.len() as int;
    assert(required(enable).len() >= 1);
    assert(enabled[at] == required(enable)[0]);
    assert(steps[at] == enabled[at]);
    let command = match enable {
        Ok(commands) => commands[0],
        Err(_) => activate_command(job, activation()),
    };
    let two = lemma_demanded_command_comes_first(
        stage,
        command,
        at,
        upto,
        steps,
        None,
        a,
        b,
        r,
        i,
    );
    (one, two)
}

// ---------------------------------------------------------------------------
// The lock, and deployments that are only tried
// ---------------------------------------------------------------------------

/// A dry run sends nothing to the host and changes nothing on this computer:
/// it reads the clock at most.
pub proof fn lemma_dry_run_only_reads_the_clock(
    source: Seq<char>,
    plan: ProjectPlan,
    domain: Option<Seq<char>>,
    interactive: bool,
    a: Log,
    b: Log,
    r: Result<DeployView, ErrorView>,
)
    requires
        deployed(source, plan, domain, true, interactive, a, b, r),
    ensures
        b == a || (b.len() == a.len() + 1 && b == a.push(b.last()) && b.last() is Clock),
        r matches Ok(view) ==> view.dry_run && !view.active,
{
    reveal(deployed_unlocked);
}

/// Recovering the lock of an application asks the host what it is and sends it
/// one script, the one that takes the lock away, and nothing else. It succeeds
/// where the host answers both. To do it again is to send the same.
pub proof fn lemma_recovery_sends_one_script(
    app: Seq<char>,
    platform: HostPlatform,
    a: Log,
    b: Log,
    r: Result<(), ErrorView>,
)
    requires
        lock_recovered(app, a, b, r),
        valid_identifier(app),
        b[a.len() as int] == Exchange::Inspect(Ok::<HostPlatform, ErrorView>(platform)),
    ensures
        b.len() == a.len() + 2,
        b.take(a.len() as int) == a,
        recover_lock_plan(app_root(platform.os), app) matches Ok(commands) && commands.len() == 1
            && is_sent(b[a.len() as int + 1], commands[0]),
        r is Ok <==> b.last()->Exec_1 is Ok,
{
    reveal_with_fuel(sent, 2);
    let (m, x) = choose|m: Log, x: Result<HostPlatform, ErrorView>|
        #[trigger] inspected(a, m, x) && match x {
            Err(error) => b == m && r == Err::<(), ErrorView>(error),
            Ok(platform) => performed(recover_lock_plan(app_root(platform.os), app), m, b, r),
        };
    assert(m[a.len() as int] == Exchange::Inspect(x));
    if let Ok(found) = x {
        let commands = recover_lock_plan(app_root(found.os), app)->Ok_0;
        lemma_sent_extends(commands, m, b, r);
        assert(b[a.len() as int] == b.take(m.len() as int)[a.len() as int]);
        assert(found == platform);
        assert(b =~= m.push(b[a.len() as int + 1]));
    } else {
        assert(b == m);
    }
    assert(b.take(a.len() as int) =~= a);
}

/// A deployment that succeeded ended with giving back the lock of the
/// application.
pub proof fn lemma_lock_is_given_back(
    source: Seq<char>,
    plan: ProjectPlan,
    domain: Option<Seq<char>>,
    interactive: bool,
    a: Log,
    b: Log,
    r: Result<DeployView, ErrorView>,
) -> (witness: (Seq<char>, Seq<char>, Log))
    requires
        deployed(source, plan, domain, false, interactive, a, b, r),
        r is Ok,
    ensures
        lock_released(witness.0, plan.name@, witness.1, witness.2, b, Ok(())),
{
    let (m1, x): (Log, Result<HostPlatform, ErrorView>) = choose|
        m: Log,
        x: Result<HostPlatform, ErrorView>,
    |
        #[trigger] inspection_step("inspect host"@, a, m, x) && match x {
            Err(error) => b == m && r == Err::<DeployView, ErrorView>(error),
            Ok(platform) => deployed_on_platform(
                platform,
                source,
                plan,
                domain,
                interactive,
                m,
                b,
                r,
            ),
        };
    let os = x->Ok_0.os;
    let (m2, y): (Log, Result<(), ErrorView>) = choose|m: Log, y: Result<(), ErrorView>|
        #[trigger] host_prepared(interactive, m1, m, y) && match y {
            Err(error) => b == m && r == Err::<DeployView, ErrorView>(error),
            Ok(_) => deployed_when_prepared(os, source, plan, domain, m, b, r),
        };
    let (m3, owner): (Log, Seq<char>) = choose|m: Log, owner: Seq<char>|
        #[trigger] release_named(m2, m, owner) && deployed_as_owner(
            app_root(os),
            owner,
            source,
            plan,
            domain,
            m,
            b,
            r,
        );
    let root = app_root(os);
    lemma_owner_gives_the_lock_back(root, owner, source, plan, domain, m3, b, r)
}

/// Whoever acquired the lock gives it back, whether the deployment succeeded
/// or not.
pub proof fn lemma_owner_gives_the_lock_back(
    root: Seq<char>,
    owner: Seq<char>,
    source: Seq<char>,
    plan: ProjectPlan,
    domain: Option<Seq<char>>,
    a: Log,
    b: Log,
    r: Result<DeployView, ErrorView>,
) -> (witness: (Seq<char>, Seq<char>, Log))
    requires
        deployed_as_owner(root, owner, source, plan, domain, a, b, r),
        r is Ok,
    ensures
        witness.0 == root && witness.1 == owner,
        lock_released(witness.0, plan.name@, witness.1, witness.2, b, Ok(())),
{
    let (m, x): (Log, Result<(), ErrorView>) = choose|m: Log, x: Result<(), ErrorView>|
        #[trigger] ran(lock_steps(root, plan.name@, owner), None, a, m, x) && match x {
            Err(error) => r == Err::<DeployView, ErrorView>(error) && lock_refused(
                root,
                plan.name@,
                owner,
                m,
                b,
            ),
            Ok(_) => deployed_locked(root, owner, source, plan, domain, m, b, r),
        };
    let (k, unlock) = lemma_locked_deployment_unlocks(root, owner, source, plan, domain, m, b, r);
    assert(unlock is Ok);
    assert(unlock->Ok_0 =~= ());
    (root, owner, k)
}

/// A deployment under the lock ends with giving it back, whatever its outcome:
/// the transcript from `witness.0` on is that.
pub proof fn lemma_locked_deployment_unlocks(
    root: Seq<char>,
    owner: Seq<char>,
    source: Seq<char>,
    plan: ProjectPlan,
    domain: Option<Seq<char>>,
    a: Log,
    b: Log,
    r: Result<DeployView, ErrorView>,
) -> (witness: (Log, Result<(), ErrorView>))
    requires
        deployed_locked(root, owner, source, plan, domain, a, b, r),
    ensures
        lock_released(root, plan.name@, owner, witness.0, b, witness.1),
        r is Ok ==> witness.1 is Ok,
{
    let (m, x): (Log, Result<DeployView, ErrorView>) = choose|
        m: Log,
        x: Result<DeployView, ErrorView>,
    |
        #[trigger] deployed_unlocked(source, plan, domain, false, a, m, x) && unlocked_after(
            root,
            plan.name@,
            owner,
            x,
            m,
            b,
            r,
        );
    let unlock = choose|unlock: Result<(), ErrorView>|
        #[trigger] lock_released(root, plan.name@, owner, m, b, unlock) && r == combined(x, unlock);
    (m, unlock)
}

// ---------------------------------------------------------------------------
// The way back
// ---------------------------------------------------------------------------

/// Where a failed release had become the current one, the first command that is
/// sent makes the previous release the current one, and the routes follow from
/// `m` on; where it had not, nothing of the previous release is touched.
pub proof fn lemma_failed_release_gives_way(
    job: Job,
    plan: ProjectPlan,
    domain: Option<Seq<char>>,
    slot: Option<char>,
    found: SituationView,
    previous: Seq<char>,
    current: Option<Seq<char>>,
    a: Log,
    b: Log,
) -> (m: Log)
    requires
        brought_back(job, plan, domain, slot, found, current, a, b),
        found.previous == Some(previous),
        restore_plan(job.root@, job.app@, previous) is Ok,
    ensures
        current != Some(job.release@) ==> b == a && m == a,
        current == Some(job.release@) ==> {
            &&& routes_restored(job.app@, found.retained, m, b)
            &&& m.len() > a.len()
            &&& m.take(a.len() as int) == a
            &&& m[a.len() as int] matches Exchange::Exec(command, _)
            &&& command == restore_plan(job.root@, job.app@, previous)->Ok_0[0]
        },
{
    if current == Some(job.release@) {
        let steps = restore_steps(job, plan, previous, slot, found.slot);
        let back = restore_plan(job.root@, job.app@, previous);
        let (m, x): (Log, Result<(), ErrorView>) = choose|m: Log, x: Result<(), ErrorView>|
            #[trigger] ran(steps, None, a, m, x) && routes_restored(
                job.app@,
                found.retained,
                m,
                b,
            );
        assert(attempted(back)[0] == StepView::Attempt(back->Ok_0[0], 0));
        assert(steps[0] == attempted(back)[0]);
        lemma_ran_extends(steps, None, a, m, x);
        m
    } else {
        a
    }
}

/// A deployment that failed on a host with a previous release names that
/// release in its error.
pub proof fn lemma_error_names_the_previous_release(
    job: Job,
    plan: ProjectPlan,
    domain: Option<Seq<char>>,
    slot: Option<char>,
    found: SituationView,
    previous: Seq<char>,
    error: ErrorView,
    a: Log,
    b: Log,
    r: ErrorView,
)
    requires
        recovered(job, plan, domain, slot, found, error, a, b, r),
        found.previous == Some(previous),
    ensures
        r matches ErrorView::Deployment { previous_release, .. } && previous_release == previous,
{
    reveal(recovered);
}

// ---------------------------------------------------------------------------
// Backend and frontend together
// ---------------------------------------------------------------------------

/// The deployment was undone, or that was tried.
pub open spec fn given_up(result: DeployView, a: Log, b: Log) -> bool {
    exists|x: Result<OperationView, ErrorView>| #[trigger] undone(result, a, b, x)
}

/// The deployments were undone one after the other, the last one first;
/// `logs` are the transcripts between them.
pub open spec fn undone_in_turn(results: Seq<DeployView>, logs: Seq<Log>) -> bool {
    &&& logs.len() == results.len() + 1
    &&& forall|i: int|
        0 <= i < results.len() ==> given_up(
            #[trigger] results[i],
            logs[results.len() - 1 - i],
            logs[results.len() - i],
        )
}

/// Where a component fails, each one that was deployed before it is undone,
/// the last one first, and one that cannot be undone does not keep the others
/// from it.
pub proof fn lemma_every_component_is_undone(
    results: Seq<DeployView>,
    errors: Seq<Seq<char>>,
    a: Log,
    b: Log,
    found: Seq<Seq<char>>,
) -> (logs: Seq<Log>)
    requires
        all_undone(results, errors, a, b, found),
    ensures
        undone_in_turn(results, logs),
        logs[0] == a,
        logs.last() == b,
    decreases results.len(),
{
    if results.len() == 0 {
        seq![a]
    } else {
        let (m, x): (Log, Result<OperationView, ErrorView>) = choose|
            m: Log,
            x: Result<OperationView, ErrorView>,
        |
            #[trigger] undone(results.last(), a, m, x) && all_undone(
                results.drop_last(),
                with_error(errors, results.last().app, x),
                m,
                b,
                found,
            );
        let rest = lemma_every_component_is_undone(
            results.drop_last(),
            with_error(errors, results.last().app, x),
            m,
            b,
            found,
        );
        let logs = seq![a] + rest;
        assert(given_up(results.last(), a, m));
        let left = results.drop_last();
        assert forall|i: int| 0 <= i < results.len() implies given_up(
            #[trigger] results[i],
            logs[results.len() - 1 - i],
            logs[results.len() - i],
        ) by {
            if i < left.len() {
                assert(given_up(left[i], rest[left.len() - 1 - i], rest[left.len() - i]));
                assert(logs[results.len() - 1 - i] == rest[left.len() - 1 - i]);
                assert(logs[results.len() - i] == rest[left.len() - i]);
            }
        }
        logs
    }
}

/// The backend goes before the frontend, so that a frontend is never deployed
/// before the backend that it needs.
pub proof fn lemma_backend_goes_first(components: Seq<ProjectComponent>, i: int, j: int)
    requires
        0 <= i < deploy_order(components).len(),
        0 <= j < deploy_order(components).len(),
        deploy_order(components)[i].role is Backend,
        deploy_order(components)[j].role is Frontend,
    ensures
        i < j,
{
    lemma_of_role(components, ProjectRole::Backend);
    lemma_of_role(components, ProjectRole::Frontend);
}

proof fn lemma_of_role(components: Seq<ProjectComponent>, role: ProjectRole)
    ensures
        forall|i: int|
            0 <= i < of_role(components, role).len() ==> (#[trigger] of_role(
                components,
                role,
            )[i]).role == role,
    decreases components.len(),
{
    if components.len() > 0 {
        lemma_of_role(components.drop_last(), role);
    }
}

// ---------------------------------------------------------------------------
// Rollbacks
// ---------------------------------------------------------------------------

proof fn lemma_contained_joins(first: Seq<StepView>, second: Seq<StepView>)
    requires
        contained(first),
        contained(second),
    ensures
        contained(first + second),
{
    let all = first + second;
    assert forall|i: int| 0 <= i < all.len() implies (#[trigger] all[i] matches StepView::Attempt(
        _,
        skip,
    ) ==> i + 1 + skip <= all.len()) by {
        if i < first.len() {
            assert(all[i] == first[i]);
        } else {
            assert(all[i] == second[i - first.len()]);
        }
    }
}

proof fn lemma_slots_freed_contained(steps: Seq<StepView>, turn: Turn)
    requires
        contained(steps),
    ensures
        contained(with_slots_freed(steps, turn)),
{
    let stop_a = attempted(slot_action_plan(turn.os, turn.app@, 'a', LifecycleAction::Stop));
    let drop_a = attempted(slot_disable_plan(turn.os, turn.app@, 'a'));
    let stop_b = attempted(slot_action_plan(turn.os, turn.app@, 'b', LifecycleAction::Stop));
    let drop_b = attempted(slot_disable_plan(turn.os, turn.app@, 'b'));
    lemma_contained_joins(steps, stop_a);
    lemma_contained_joins(steps + stop_a, drop_a);
    lemma_contained_joins(steps + stop_a + drop_a, stop_b);
    lemma_contained_joins(steps + stop_a + drop_a + stop_b, drop_b);
    lemma_contained_joins(
        steps + stop_a + drop_a + stop_b + drop_b,
        required(clear_slot_plan(turn.root@, turn.app@)),
    );
}

/// Where the health check of the earlier release stands among the steps.
proof fn lemma_place_of_health(turn: Turn, port: u16) -> (at: int)
    requires
        turn.target_manifest.app_type is Service,
        turn.target_manifest.port == Some(port),
    ensures
        0 <= at < back_steps(turn).len(),
        back_steps(turn)[at] == StepView::Send(health_command(port, turn.target_manifest.health)),
        contained(back_steps(turn).take(at)),
{
    let health = StepView::Send(health_command(port, turn.target_manifest.health));
    let switched = Seq::<StepView>::empty().push(
        StepView::Send(switch_to(turn, turn.target@, "rollback activation"@)),
    );
    match turn.other() {
        Some(slot) => {
            let before = switched + required(
                unit_install_plan(turn, slot_unit_result(turn.app@, slot), turn.target@),
            ) + required(slot_enable_plan(turn.os, turn.app@, slot)) + required(
                slot_action_plan(turn.os, turn.app@, slot, LifecycleAction::Start),
            );
            let at = before.len() as int;
            assert(back_steps(turn)[at] == health);
            assert(back_steps(turn).take(at) =~= before);
            at
        },
        None => {
            let freed = if turn.target_manifest.port_explicit && turn.os is Linux {
                lemma_slots_freed_contained(switched, turn);
                with_slots_freed(switched, turn)
            } else {
                switched
            };
            let unit = unit_name(turn.app@, false);
            let install = required(unit_install_plan(turn, Ok(unit), turn.target@));
            let enable = required(enable_plan(turn.os, unit));
            let restart = required(action_plan(turn.os, unit, LifecycleAction::Restart));
            lemma_contained_joins(freed, install);
            lemma_contained_joins(freed + install, enable);
            lemma_contained_joins(freed + install + enable, restart);
            let before = freed + install + enable + restart;
            let at = before.len() as int;
            assert(back_steps(turn) =~= before.push(health));
            assert(back_steps(turn).take(at) =~= before);
            at
        },
    }
}

/// A rollback of a service succeeds only where the earlier release answered its
/// health check.
pub proof fn lemma_rollback_ends_healthy(
    turn: Turn,
    port: u16,
    a: Log,
    b: Log,
    r: Result<(), ErrorView>,
) -> (j: int)
    requires
        gone_back(turn, a, b, r),
        r is Ok,
        turn.target_manifest.app_type is Service,
        turn.target_manifest.port == Some(port),
    ensures
        a.len() <= j,
        exists|m: Log, x: Result<(), ErrorView>|
            #![trigger ran(back_steps(turn), None, a, m, x)]
            ran(back_steps(turn), None, a, m, x) && j < m.len() && answers(
                port,
                turn.target_manifest.health,
                m[j],
            ) && routes_set(turn, m, b, r),
{
    reveal(gone_back);
    let (m, x): (Log, Result<(), ErrorView>) = choose|m: Log, x: Result<(), ErrorView>|
        #[trigger] ran(back_steps(turn), None, a, m, x) && match x {
            Err(error) => b == m && r == Err::<(), ErrorView>(error),
            Ok(_) => routes_set(turn, m, b, r),
        };
    let at = lemma_place_of_health(turn, port);
    lemma_demanded_command_succeeded(
        health_command(port, turn.target_manifest.health),
        at,
        back_steps(turn),
        None,
        a,
        m,
        x,
    )
}

/// The command was sent.
pub open spec fn is_sent(e: Exchange, command: CommandView) -> bool {
    e matches Exchange::Exec(sent, _) && sent == command
}

/// A rollback that fails gives way: the first thing that follows is that the
/// release that was active becomes the current one again, and the error names
/// that release.
pub proof fn lemma_failed_rollback_gives_way(
    turn: Turn,
    error: ErrorView,
    a: Log,
    b: Log,
    r: Result<OperationView, ErrorView>,
)
    requires
        rollback_undone(turn, error, a, b, r),
    ensures
        r matches Err(ErrorView::Deployment { previous_release, .. }) && previous_release
            == turn.current@,
        exists|m: Log, x: Result<(), ErrorView>|
            #![trigger ran(forward_steps(turn), None, a, m, x)]
            ran(forward_steps(turn), None, a, m, x) && m.len() > a.len() && m.take(a.len() as int)
                == a && is_sent(
                m[a.len() as int],
                switch_to(
                    turn,
                    turn.current@,
                    "restore active release after rollback failure"@,
                ),
            ),
{
    let x = choose|x: Result<(), ErrorView>|
        #[trigger] gone_forward(turn, a, b, x) && r == Err::<OperationView, ErrorView>(
            rollback_failed(turn.current@, error, x),
        );
    reveal(gone_forward);
    let (m, y): (Log, Result<(), ErrorView>) = choose|m: Log, y: Result<(), ErrorView>|
        #[trigger] ran(forward_steps(turn), None, a, m, y) && match y {
            Err(error) => b == m && x == Err::<(), ErrorView>(error),
            Ok(_) => routes_set(turn, m, b, x),
        };
    lemma_ran_extends(forward_steps(turn), None, a, m, y);
    assert(forward_steps(turn)[0] == StepView::Send(
        switch_to(turn, turn.current@, "restore active release after rollback failure"@),
    ));
}

} // verus!
