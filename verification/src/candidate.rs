//! How a release is put on a host: the work before it is activated, and the
//! activation itself where it needs nothing but commands, as lists of steps.

use crate::error::{config_error, text_outcome, CiaoError, ErrorView};
use crate::hooks::{add_hooked, hooked, remote_hook_plan, run_remote_hook};
use crate::model::{AppType, HealthConfig, HostOs, LifecycleAction, ProjectPlan};
use crate::release::{
    app_dir, app_directory, candidate_start, candidate_stop, command_script_with_home,
    current_link, current_path, env_path, environment_file, harden_plan, harden_release,
    health_command, home_script_result, macos_candidate_start, macos_candidate_stop, release_dir,
    release_directory, remote_healthcheck, run_as_user_script, staging_dir, staging_directory,
    start_script, start_script_result, switch_current_script, switch_script, user_script_plan,
    write_file_plan, write_remote_file,
};
use crate::remote::{script_command, script_spec, CommandSpec, CommandView};
use crate::services::{
    action_plan, clear_active_slot, clear_slot_plan, disable_plan, disable_service, enable_plan,
    enable_service, install_plan, install_service, is_slot, record_slot_plan, remove_plan,
    remove_service, service_action, service_unit_name, slot_service_unit_name, slot_unit_result,
    unit_name, write_active_slot,
};
use crate::shell::{shell_quote, shell_quoted};
use crate::steps::{
    add_attempted, add_required, add_step, attempted, plan_outcome, required, steps_view, Step,
    StepView,
};
use crate::validate::{owner_check, validate_owner};
use vstd::prelude::*;

verus! {

// ---------------------------------------------------------------------------
// A release in the making
// ---------------------------------------------------------------------------

/// A release that is being put on a host.
#[derive(Debug, PartialEq, Eq)]
pub struct Job {
    pub os: HostOs,
    pub root: String,
    pub app: String,
    pub release: String,
    /// The account that builds and runs the application.
    pub user: String,
    /// The home directory of builds.
    pub home: String,
}

impl Job {
    /// Where the release is.
    pub open spec fn path(self) -> Seq<char> {
        release_dir(self.root@, self.app@, self.release@)
    }

    /// Where the source is uploaded to.
    pub open spec fn staging(self) -> Seq<char> {
        staging_dir(self.app@, self.release@)
    }

    /// The environment of the application.
    pub open spec fn env(self) -> Seq<char> {
        env_path(self.root@, self.app@)
    }

    pub fn directory(&self) -> (r: String)
        ensures
            r@ == self.path(),
    {
        release_directory(self.root.as_str(), self.app.as_str(), self.release.as_str())
    }

    pub fn environment(&self) -> (r: String)
        ensures
            r@ == self.env(),
    {
        environment_file(self.root.as_str(), self.app.as_str())
    }
}

// ---------------------------------------------------------------------------
// Progress steps
// ---------------------------------------------------------------------------

/// `steps` and then an operation that has to succeed, as a progress step.
pub open spec fn with_step(
    steps: Seq<StepView>,
    name: Seq<char>,
    plan: Result<Seq<CommandView>, ErrorView>,
) -> Seq<StepView> {
    (steps.push(StepView::Begin(name)) + required(plan)).push(StepView::End)
}

pub fn put_step(steps: &mut Vec<Step>, name: &str, plan: Result<Vec<CommandSpec>, CiaoError>)
    ensures
        steps_view(final(steps)@) == with_step(steps_view(old(steps)@), name@, plan_outcome(plan)),
{
    add_step(steps, Step::Begin(name.to_owned()));
    add_required(steps, plan);
    add_step(steps, Step::End);
}

pub fn no_steps() -> (r: Vec<Step>)
    ensures
        steps_view(r@) == Seq::<StepView>::empty(),
{
    let steps: Vec<Step> = Vec::new();
    assert(steps_view(steps@) =~= Seq::<StepView>::empty());
    steps
}

// ---------------------------------------------------------------------------
// Source and manifest
// ---------------------------------------------------------------------------

/// The group of the files of a release.
pub open spec fn account_group(os: HostOs, user: Seq<char>) -> Seq<char> {
    if os is MacOs {
        "staff"@
    } else {
        user
    }
}

pub open spec fn staging_command(job: Job) -> CommandView {
    let staging = job.staging();
    let user = job.user@;
    let group = account_group(job.os, job.user@);
    script_command(
        "prepare upload staging"@,
        "set -eu\nsudo -n rm -rf "@ + shell_quoted(staging) + "\nsudo -n install -d -m 0755 "@
            + shell_quoted(staging) + "\nsudo -n chown "@ + shell_quoted(user) + ":"@
            + shell_quoted(group) + " "@ + shell_quoted(staging) + "\n"@,
    )
}

pub open spec fn finalize_command(job: Job) -> CommandView {
    let releases = app_dir(job.root@, job.app@) + "/releases"@;
    let staging = job.staging();
    let path = job.path();
    let user = job.user@;
    script_command(
        "finalize release"@,
        "set -eu\nsudo -n install -d -m 0755 "@ + shell_quoted(releases) + "\nsudo -n mv "@
            + shell_quoted(staging) + " "@ + shell_quoted(path) + "\nsudo -n chown -R "@
            + shell_quoted(user) + " "@ + shell_quoted(path) + "\n"@,
    )
}

/// Uploading the source: into a directory of its own, which then becomes the
/// release.
pub open spec fn upload_steps(job: Job, source: Seq<char>) -> Seq<StepView> {
    Seq::empty().push(StepView::Begin("upload source"@)).push(
        StepView::Send(staging_command(job)),
    ).push(StepView::Upload(source, job.staging())).push(
        StepView::Send(finalize_command(job)),
    ).push(StepView::End)
}

pub fn plan_upload(job: &Job, source: &str) -> (r: Vec<Step>)
    ensures
        steps_view(r@) == upload_steps(*job, source@),
{
    let staging_text = staging_directory(job.app.as_str(), job.release.as_str());
    let staging = staging_text.as_str();
    let path_text = job.directory();
    let path = path_text.as_str();
    let releases_text = app_directory(job.root.as_str(), job.app.as_str()).concat("/releases");
    let releases = releases_text.as_str();
    let user = job.user.as_str();
    let group = if job.os.is_macos() {
        "staff"
    } else {
        user
    };
    let prepare = "set -eu\nsudo -n rm -rf ".to_owned()
        .concat(shell_quote(staging).as_str())
        .concat("\nsudo -n install -d -m 0755 ")
        .concat(shell_quote(staging).as_str())
        .concat("\nsudo -n chown ")
        .concat(shell_quote(user).as_str())
        .concat(":")
        .concat(shell_quote(group).as_str())
        .concat(" ")
        .concat(shell_quote(staging).as_str())
        .concat("\n");
    let finalize = "set -eu\nsudo -n install -d -m 0755 ".to_owned()
        .concat(shell_quote(releases).as_str())
        .concat("\nsudo -n mv ")
        .concat(shell_quote(staging).as_str())
        .concat(" ")
        .concat(shell_quote(path).as_str())
        .concat("\nsudo -n chown -R ")
        .concat(shell_quote(user).as_str())
        .concat(" ")
        .concat(shell_quote(path).as_str())
        .concat("\n");
    let mut steps = no_steps();
    add_step(&mut steps, Step::Begin("upload source".to_owned()));
    add_step(&mut steps, Step::Send(script_spec("prepare upload staging", prepare.as_str())));
    add_step(&mut steps, Step::Upload(source.to_owned(), staging_text.clone()));
    add_step(&mut steps, Step::Send(script_spec("finalize release", finalize.as_str())));
    add_step(&mut steps, Step::End);
    steps
}

/// Writing the manifest of the release.
pub open spec fn manifest_plan(job: Job, text: Result<Seq<char>, ErrorView>) -> Result<
    Seq<CommandView>,
    ErrorView,
> {
    match text {
        Err(error) => Err(error),
        Ok(text) => write_file_plan(
            job.path() + "/ciao-manifest.toml"@,
            text,
            job.user@,
            "write release manifest"@,
        ),
    }
}

pub fn write_manifest(job: &Job, text: Result<String, CiaoError>) -> (r: Result<
    Vec<CommandSpec>,
    CiaoError,
>)
    ensures
        plan_outcome(r) == manifest_plan(*job, text_outcome(text)),
{
    match text {
        Err(error) => Err(error),
        Ok(text) => {
            let path = job.directory().concat("/ciao-manifest.toml");
            write_remote_file(
                path.as_str(),
                text.as_str(),
                job.user.as_str(),
                "write release manifest",
            )
        },
    }
}

// ---------------------------------------------------------------------------
// Commands of the project
// ---------------------------------------------------------------------------

/// Running a command of the project in the release, as the account of the
/// application.
pub open spec fn build_plan(job: Job, name: Seq<char>, command: Seq<char>) -> Result<
    Seq<CommandView>,
    ErrorView,
> {
    match home_script_result(command, job.path(), job.home@, job.env()) {
        Err(error) => Err(error),
        Ok(script) => user_script_plan(job.user@, name, script),
    }
}

fn run_build(job: &Job, name: &str, command: &str) -> (r: Result<Vec<CommandSpec>, CiaoError>)
    ensures
        plan_outcome(r) == build_plan(*job, name@, command@),
{
    let script = command_script_with_home(
        command,
        job.directory().as_str(),
        job.home.as_str(),
        job.environment().as_str(),
    )?;
    run_as_user_script(job.user.as_str(), name, script.as_str())
}

/// `steps` and then a command of the project, where it has one.
pub open spec fn with_build(
    steps: Seq<StepView>,
    job: Job,
    name: Seq<char>,
    command: Option<String>,
) -> Seq<StepView> {
    match command {
        None => steps,
        Some(command) => with_step(steps, name, build_plan(job, name, command@)),
    }
}

fn put_build(steps: &mut Vec<Step>, job: &Job, name: &str, command: &Option<String>)
    ensures
        steps_view(final(steps)@) == with_build(steps_view(old(steps)@), *job, name@, *command),
{
    match command {
        None => {},
        Some(command) => {
            let plan = run_build(job, name, command.as_str());
            put_step(steps, name, plan);
        },
    }
}

/// Running a hook in the release.
pub open spec fn hook_plan(job: Job, command: Seq<char>, stage: Seq<char>) -> Result<
    Seq<CommandView>,
    ErrorView,
> {
    remote_hook_plan(job.user@, command, job.path(), job.home@, job.env(), stage)
}

/// `steps` and then a hook, where the project has one.
pub open spec fn with_hook(
    steps: Seq<StepView>,
    job: Job,
    name: Seq<char>,
    command: Option<String>,
    stage: Seq<char>,
) -> Seq<StepView> {
    match command {
        None => steps,
        Some(command) => (steps.push(StepView::Begin(name)) + hooked(
            hook_plan(job, command@, stage),
        )).push(StepView::End),
    }
}

pub fn put_hook(
    steps: &mut Vec<Step>,
    job: &Job,
    name: &str,
    command: &Option<String>,
    stage: &str,
)
    ensures
        steps_view(final(steps)@) == with_hook(
            steps_view(old(steps)@),
            *job,
            name@,
            *command,
            stage@,
        ),
{
    match command {
        None => {},
        Some(command) => {
            add_step(steps, Step::Begin(name.to_owned()));
            let plan = run_remote_hook(
                job.user.as_str(),
                command.as_str(),
                job.directory().as_str(),
                job.home.as_str(),
                job.environment().as_str(),
                stage,
            );
            add_hooked(steps, plan);
            add_step(steps, Step::End);
        },
    }
}

// ---------------------------------------------------------------------------
// Static sites
// ---------------------------------------------------------------------------

/// Looking for the files that the build has to have made.
pub open spec fn output_command(job: Job, directory: Seq<char>) -> CommandView {
    let path = job.path() + "/"@ + directory;
    script_command(
        "verify static output"@,
        "set -eu\nsudo -n test -d "@ + shell_quoted(path)
            + " || { echo 'static build did not create "@ + shell_quoted(directory)
            + "' >&2; exit 1; }\n"@,
    )
}

/// Making the release the current one.
pub open spec fn activate_command(job: Job, stage: Seq<char>) -> CommandView {
    script_command(stage, switch_script(job.os, job.root@, job.app@, job.path()))
}

fn activation(job: &Job, stage: &str) -> (r: CommandSpec)
    ensures
        r@ == activate_command(*job, stage@),
{
    script_spec(
        stage,
        switch_current_script(
            &job.os,
            job.root.as_str(),
            job.app.as_str(),
            job.directory().as_str(),
        ).as_str(),
    )
}

/// `steps` and then the check of the output directory, which has to be known.
pub open spec fn with_output_check(
    steps: Seq<StepView>,
    job: Job,
    directory: Option<String>,
) -> Seq<StepView> {
    match directory {
        None => steps.push(
            StepView::Fail(ErrorView::Config("static deployment has no output directory"@)),
        ),
        Some(directory) => steps.push(StepView::Begin("verify static output"@)).push(
            StepView::Send(output_command(job, directory@)),
        ).push(StepView::End),
    }
}

fn put_output_check(steps: &mut Vec<Step>, job: &Job, directory: &Option<String>)
    ensures
        steps_view(final(steps)@) == with_output_check(steps_view(old(steps)@), *job, *directory),
{
    match directory {
        None => {
            add_step(
                steps,
                Step::Fail(config_error("static deployment has no output directory")),
            );
        },
        Some(directory) => {
            let path_text = job.directory().concat("/").concat(directory.as_str());
            let path = path_text.as_str();
            let directory = directory.as_str();
            let script = "set -eu\nsudo -n test -d ".to_owned()
                .concat(shell_quote(path).as_str())
                .concat(" || { echo 'static build did not create ")
                .concat(shell_quote(directory).as_str())
                .concat("' >&2; exit 1; }\n");
            add_step(steps, Step::Begin("verify static output".to_owned()));
            add_step(steps, Step::Send(script_spec("verify static output", script.as_str())));
            add_step(steps, Step::End);
        },
    }
}

/// Building a static site up to its activation.
pub open spec fn static_build_steps(job: Job, plan: ProjectPlan) -> Seq<StepView> {
    with_hook(
        with_output_check(
            with_build(
                with_build(
                    Seq::empty(),
                    job,
                    "install dependencies"@,
                    plan.install_command,
                ),
                job,
                "build static site"@,
                plan.build_command,
            ),
            job,
            plan.static_directory,
        ),
        job,
        "pre-activate hook"@,
        plan.hooks.pre_activate,
        "run pre-activate hook"@,
    )
}

/// Building a static site, checking its output and activating it.
pub open spec fn static_steps(job: Job, plan: ProjectPlan) -> Seq<StepView> {
    (static_build_steps(job, plan).push(StepView::Begin("activate static release"@)) + required(
        harden_plan(job.os, job.path()),
    )).push(StepView::Send(activate_command(job, "activate static release"@))).push(StepView::End)
}

pub fn plan_static_release(job: &Job, plan: &ProjectPlan) -> (r: Vec<Step>)
    ensures
        steps_view(r@) == static_steps(*job, *plan),
{
    let mut steps = no_steps();
    put_build(&mut steps, job, "install dependencies", &plan.install_command);
    put_build(&mut steps, job, "build static site", &plan.build_command);
    put_output_check(&mut steps, job, &plan.static_directory);
    put_hook(
        &mut steps,
        job,
        "pre-activate hook",
        &plan.hooks.pre_activate,
        "run pre-activate hook",
    );
    add_step(&mut steps, Step::Begin("activate static release".to_owned()));
    add_required(&mut steps, harden_release(&job.os, job.directory().as_str()));
    add_step(&mut steps, Step::Send(activation(job, "activate static release")));
    add_step(&mut steps, Step::End);
    steps
}

// ---------------------------------------------------------------------------
// Units of slots
// ---------------------------------------------------------------------------

pub open spec fn slot_action_plan(
    os: HostOs,
    app: Seq<char>,
    slot: char,
    action: LifecycleAction,
) -> Result<Seq<CommandView>, ErrorView> {
    match slot_unit_result(app, slot) {
        Err(error) => Err(error),
        Ok(unit) => action_plan(os, unit, action),
    }
}

pub fn slot_action(os: &HostOs, app: &str, slot: char, action: LifecycleAction) -> (r: Result<
    Vec<CommandSpec>,
    CiaoError,
>)
    ensures
        plan_outcome(r) == slot_action_plan(*os, app@, slot, action),
{
    let unit = slot_service_unit_name(app, slot)?;
    service_action(os, unit.as_str(), action)
}

pub open spec fn slot_disable_plan(os: HostOs, app: Seq<char>, slot: char) -> Result<
    Seq<CommandView>,
    ErrorView,
> {
    match slot_unit_result(app, slot) {
        Err(error) => Err(error),
        Ok(unit) => disable_plan(os, unit),
    }
}

pub fn slot_disable(os: &HostOs, app: &str, slot: char) -> (r: Result<Vec<CommandSpec>, CiaoError>)
    ensures
        plan_outcome(r) == slot_disable_plan(*os, app@, slot),
{
    let unit = slot_service_unit_name(app, slot)?;
    disable_service(os, unit.as_str())
}

pub open spec fn slot_enable_plan(os: HostOs, app: Seq<char>, slot: char) -> Result<
    Seq<CommandView>,
    ErrorView,
> {
    match slot_unit_result(app, slot) {
        Err(error) => Err(error),
        Ok(unit) => enable_plan(os, unit),
    }
}

pub fn slot_enable(os: &HostOs, app: &str, slot: char) -> (r: Result<Vec<CommandSpec>, CiaoError>)
    ensures
        plan_outcome(r) == slot_enable_plan(*os, app@, slot),
{
    let unit = slot_service_unit_name(app, slot)?;
    enable_service(os, unit.as_str())
}

pub open spec fn slot_remove_plan(os: HostOs, app: Seq<char>, slot: char) -> Result<
    Seq<CommandView>,
    ErrorView,
> {
    match slot_unit_result(app, slot) {
        Err(error) => Err(error),
        Ok(unit) => remove_plan(os, unit),
    }
}

pub fn slot_remove(os: &HostOs, app: &str, slot: char) -> (r: Result<Vec<CommandSpec>, CiaoError>)
    ensures
        plan_outcome(r) == slot_remove_plan(*os, app@, slot),
{
    let unit = slot_service_unit_name(app, slot)?;
    remove_service(os, unit.as_str())
}

/// Installing the unit of a slot, which runs the release itself.
pub open spec fn slot_install_plan(job: Job, slot: char) -> Result<Seq<CommandView>, ErrorView> {
    match slot_unit_result(job.app@, slot) {
        Err(error) => Err(error),
        Ok(unit) => install_plan(
            job.os,
            unit,
            job.user@,
            job.path(),
            job.env(),
            false,
            "./start"@,
        ),
    }
}

fn slot_install(job: &Job, slot: char) -> (r: Result<Vec<CommandSpec>, CiaoError>)
    ensures
        plan_outcome(r) == slot_install_plan(*job, slot),
{
    let unit = slot_service_unit_name(job.app.as_str(), slot)?;
    install_service(
        &job.os,
        unit.as_str(),
        job.user.as_str(),
        job.directory().as_str(),
        job.environment().as_str(),
        false,
        "./start",
    )
}

/// Installing the unit that runs the current release.
pub open spec fn stable_install_plan(job: Job) -> Result<Seq<CommandView>, ErrorView> {
    install_plan(
        job.os,
        unit_name(job.app@, false),
        job.user@,
        current_path(job.root@, job.app@),
        job.env(),
        false,
        "./start"@,
    )
}

pub fn stable_install(job: &Job) -> (r: Result<Vec<CommandSpec>, CiaoError>)
    ensures
        plan_outcome(r) == stable_install_plan(*job),
{
    install_service(
        &job.os,
        service_unit_name(job.app.as_str(), false).as_str(),
        job.user.as_str(),
        current_link(job.root.as_str(), job.app.as_str()).as_str(),
        job.environment().as_str(),
        false,
        "./start",
    )
}

// ---------------------------------------------------------------------------
// Services
// ---------------------------------------------------------------------------

/// The command that starts a service, which has to be known.
pub open spec fn start_command_result(plan: ProjectPlan) -> Result<Seq<char>, ErrorView> {
    match plan.run_command {
        Some(command) => Ok(command@),
        None => Err(ErrorView::Config("service deployment requires a run command"@)),
    }
}

pub fn release_start_command(plan: &ProjectPlan) -> (r: Result<String, CiaoError>)
    ensures
        text_outcome(r) == start_command_result(*plan),
{
    match &plan.run_command {
        Some(command) => Ok(command.clone()),
        None => Err(config_error("service deployment requires a run command")),
    }
}

pub open spec fn release_start_result(job: Job, plan: ProjectPlan, port: u16) -> Result<
    Seq<char>,
    ErrorView,
> {
    match start_command_result(plan) {
        Err(error) => Err(error),
        Ok(command) => start_script_result(job.path(), command, port, job.env()),
    }
}

fn release_start(job: &Job, plan: &ProjectPlan, port: u16) -> (r: Result<String, CiaoError>)
    ensures
        text_outcome(r) == release_start_result(*job, *plan, port),
{
    let command = release_start_command(plan)?;
    start_script(
        job.directory().as_str(),
        command.as_str(),
        port,
        job.environment().as_str(),
    )
}

pub open spec fn executable_command(job: Job) -> CommandView {
    let path = job.path() + "/start"@;
    script_command(
        "make release executable"@,
        "set -eu\nsudo -n chmod 0755 "@ + shell_quoted(path) + "\n"@,
    )
}

/// The script that starts the release is written and made executable.
pub open spec fn start_steps(job: Job, plan: ProjectPlan, port: u16) -> Seq<StepView> {
    match release_start_result(job, plan, port) {
        Err(error) => Seq::empty().push(StepView::Fail(error)),
        Ok(script) => (Seq::empty().push(StepView::Begin("prepare service release"@)) + required(
            write_file_plan(
                job.path() + "/start"@,
                script,
                job.user@,
                "write release start script"@,
            ),
        )).push(StepView::Send(executable_command(job))).push(StepView::End),
    }
}

fn plan_start(job: &Job, plan: &ProjectPlan, port: u16) -> (r: Vec<Step>)
    ensures
        steps_view(r@) == start_steps(*job, *plan, port),
{
    let mut steps = no_steps();
    match release_start(job, plan, port) {
        Err(error) => {
            add_step(&mut steps, Step::Fail(error));
        },
        Ok(script) => {
            let path_text = job.directory().concat("/start");
            let path = path_text.as_str();
            add_step(&mut steps, Step::Begin("prepare service release".to_owned()));
            add_required(
                &mut steps,
                write_remote_file(
                    path,
                    script.as_str(),
                    job.user.as_str(),
                    "write release start script",
                ),
            );
            add_step(
                &mut steps,
                Step::Send(
                    script_spec(
                        "make release executable",
                        "set -eu\nsudo -n chmod 0755 ".to_owned()
                            .concat(shell_quote(path).as_str())
                            .concat("\n")
                            .as_str(),
                    ),
                ),
            );
            add_step(&mut steps, Step::End);
        },
    }
    steps
}

/// How a new release of a service is tried before it is activated.
pub open spec fn with_candidate(
    steps: Seq<StepView>,
    job: Job,
    health: HealthConfig,
    port: u16,
    slot: Option<char>,
) -> Seq<StepView> {
    let open = steps.push(StepView::Begin("candidate healthcheck"@));
    (match slot {
        Some(slot) => (open + required(slot_install_plan(job, slot)) + required(
            slot_action_plan(job.os, job.app@, slot, LifecycleAction::Start),
        )).push(StepView::Send(health_command(port, health))),
        None => if job.os is MacOs {
            match owner_check("service user"@, job.user@) {
                Err(error) => open.push(StepView::Fail(error)),
                Ok(_) => open.push(
                    StepView::Send(
                        script_command(
                            "start macOS candidate"@,
                            candidate_start(job.path(), port),
                        ),
                    ),
                ).push(
                    StepView::Guarded(
                        health_command(port, health),
                        script_command("stop macOS candidate"@, candidate_stop(port)),
                    ),
                ),
            }
        } else {
            open
        },
    }).push(StepView::End)
}

fn put_candidate(
    steps: &mut Vec<Step>,
    job: &Job,
    health: &HealthConfig,
    port: u16,
    slot: Option<char>,
)
    ensures
        steps_view(final(steps)@) == with_candidate(
            steps_view(old(steps)@),
            *job,
            *health,
            port,
            slot,
        ),
{
    add_step(steps, Step::Begin("candidate healthcheck".to_owned()));
    match slot {
        Some(slot) => {
            add_required(steps, slot_install(job, slot));
            add_required(
                steps,
                slot_action(&job.os, job.app.as_str(), slot, LifecycleAction::Start),
            );
            add_step(steps, Step::Send(remote_healthcheck(port, health)));
        },
        None => {
            if job.os.is_macos() {
                match validate_owner("service user", job.user.as_str()) {
                    Err(error) => {
                        add_step(steps, Step::Fail(error));
                    },
                    Ok(()) => {
                        let start = macos_candidate_start(job.directory().as_str(), port);
                        add_step(
                            steps,
                            Step::Send(script_spec("start macOS candidate", start.as_str())),
                        );
                        let stop = macos_candidate_stop(port);
                        add_step(
                            steps,
                            Step::Guarded(
                                remote_healthcheck(port, health),
                                script_spec("stop macOS candidate", stop.as_str()),
                            ),
                        );
                    },
                }
            }
        },
    }
    add_step(steps, Step::End);
}

/// The slot in which a new release is tried beside the running one. A fixed
/// port cannot be bound twice, and only systemd hosts have slots.
pub open spec fn candidate_slot(
    os: HostOs,
    app_type: AppType,
    fixed: bool,
    active: Option<char>,
) -> Option<char> {
    if fixed {
        None
    } else {
        match active {
            Some('a') => Some('b'),
            Some('b') => Some('a'),
            Some(_) => None,
            None => if app_type is Service && os is Linux {
                Some('a')
            } else {
                None
            },
        }
    }
}

pub fn choose_slot(
    os: &HostOs,
    app_type: AppType,
    fixed: bool,
    active: Option<char>,
) -> (r: Option<char>)
    ensures
        r == candidate_slot(*os, app_type, fixed, active),
        r matches Some(slot) ==> is_slot(slot),
{
    if fixed {
        return None;
    }
    match active {
        Some('a') => Some('b'),
        Some('b') => Some('a'),
        Some(_) => None,
        None => if matches!(app_type, AppType::Service) && os.is_linux() {
            Some('a')
        } else {
            None
        },
    }
}

/// The slot that [`candidate_slot`] picks is never the active one.
pub proof fn lemma_candidate_slot_is_free(
    os: HostOs,
    app_type: AppType,
    fixed: bool,
    active: Option<char>,
)
    ensures
        candidate_slot(os, app_type, fixed, active) is Some ==> candidate_slot(
            os,
            app_type,
            fixed,
            active,
        ) != active,
{
}

/// Building a service and trying it, up to its activation. With a fixed port
/// the release is not tried before the running one is stopped.
pub open spec fn service_steps(
    job: Job,
    plan: ProjectPlan,
    port: u16,
    slot: Option<char>,
    fixed: bool,
) -> Seq<StepView> {
    let built = with_build(
        with_build(
            start_steps(job, plan, port),
            job,
            "install dependencies"@,
            plan.install_command,
        ),
        job,
        "build"@,
        plan.build_command,
    );
    let tried = if fixed {
        built.push(StepView::Begin("candidate healthcheck"@)).push(StepView::End)
    } else {
        with_candidate(built, job, plan.health, port, slot)
    };
    with_hook(
        tried,
        job,
        "pre-activate hook"@,
        plan.hooks.pre_activate,
        "run pre-activate hook"@,
    )
}

pub fn plan_service_release(
    job: &Job,
    plan: &ProjectPlan,
    port: u16,
    slot: Option<char>,
    fixed: bool,
) -> (r: Vec<Step>)
    ensures
        steps_view(r@) == service_steps(*job, *plan, port, slot, fixed),
{
    let mut steps = plan_start(job, plan, port);
    put_build(&mut steps, job, "install dependencies", &plan.install_command);
    put_build(&mut steps, job, "build", &plan.build_command);
    if fixed {
        add_step(&mut steps, Step::Begin("candidate healthcheck".to_owned()));
        add_step(&mut steps, Step::End);
    } else {
        put_candidate(&mut steps, job, &plan.health, port, slot);
    }
    put_hook(
        &mut steps,
        job,
        "pre-activate hook",
        &plan.hooks.pre_activate,
        "run pre-activate hook",
    );
    steps
}

// ---------------------------------------------------------------------------
// Activation
// ---------------------------------------------------------------------------

/// `steps` and then the attempt to stop and disable the unit of a slot.
pub open spec fn with_slot_stopped(
    steps: Seq<StepView>,
    os: HostOs,
    app: Seq<char>,
    slot: char,
) -> Seq<StepView> {
    steps + attempted(slot_action_plan(os, app, slot, LifecycleAction::Stop)) + attempted(
        slot_disable_plan(os, app, slot),
    )
}

pub fn put_slot_stopped(steps: &mut Vec<Step>, os: &HostOs, app: &str, slot: char)
    ensures
        steps_view(final(steps)@) == with_slot_stopped(steps_view(old(steps)@), *os, app@, slot),
{
    add_attempted(steps, slot_action(os, app, slot, LifecycleAction::Stop));
    add_attempted(steps, slot_disable(os, app, slot));
}

/// Activating a release under the one unit of the application: on macOS, and
/// on Linux with a fixed port, where both slots are given up first.
pub open spec fn restart_steps(job: Job, health: HealthConfig, port: u16, fixed: bool) -> Seq<
    StepView,
> {
    let open = Seq::empty().push(StepView::Begin("activate service release"@)) + required(
        harden_plan(job.os, job.path()),
    );
    let freed = if fixed && job.os is Linux {
        with_slot_stopped(
            with_slot_stopped(open, job.os, job.app@, 'a'),
            job.os,
            job.app@,
            'b',
        ) + required(clear_slot_plan(job.root@, job.app@))
    } else {
        open
    };
    let unit = unit_name(job.app@, false);
    ((freed + required(stable_install_plan(job))).push(
        StepView::Send(activate_command(job, "activate release"@)),
    ) + required(enable_plan(job.os, unit)) + required(
        action_plan(job.os, unit, LifecycleAction::Restart),
    )).push(StepView::Send(health_command(port, health))).push(StepView::End)
}

pub fn plan_restart(job: &Job, health: &HealthConfig, port: u16, fixed: bool) -> (r: Vec<Step>)
    ensures
        steps_view(r@) == restart_steps(*job, *health, port, fixed),
{
    let unit = service_unit_name(job.app.as_str(), false);
    let mut steps = no_steps();
    add_step(&mut steps, Step::Begin("activate service release".to_owned()));
    add_required(&mut steps, harden_release(&job.os, job.directory().as_str()));
    if fixed && job.os.is_linux() {
        put_slot_stopped(&mut steps, &job.os, job.app.as_str(), 'a');
        put_slot_stopped(&mut steps, &job.os, job.app.as_str(), 'b');
        add_required(&mut steps, clear_active_slot(job.root.as_str(), job.app.as_str()));
    }
    add_required(&mut steps, stable_install(job));
    add_step(&mut steps, Step::Send(activation(job, "activate release")));
    add_required(&mut steps, enable_service(&job.os, unit.as_str()));
    add_required(&mut steps, service_action(&job.os, unit.as_str(), LifecycleAction::Restart));
    add_step(&mut steps, Step::Send(remote_healthcheck(port, health)));
    add_step(&mut steps, Step::End);
    steps
}

/// Activating the release in a slot, once its routes are written: the release
/// becomes the current one and its slot is enabled before the old slot, or the
/// unit without slots, is stopped.
pub open spec fn slot_switch_steps(
    job: Job,
    health: HealthConfig,
    port: u16,
    slot: char,
    active: Option<char>,
) -> Seq<StepView> {
    let unit = unit_name(job.app@, false);
    let enabled = Seq::empty().push(StepView::Send(activate_command(job, "activate release"@)))
        + required(stable_install_plan(job)) + required(disable_plan(job.os, unit)) + required(
        slot_enable_plan(job.os, job.app@, slot),
    );
    let stopped = match active {
        Some(old) => with_slot_stopped(enabled, job.os, job.app@, old),
        None => enabled + attempted(action_plan(job.os, unit, LifecycleAction::Stop)),
    };
    (stopped + required(record_slot_plan(job.root@, job.app@, slot))).push(
        StepView::Send(health_command(port, health)),
    )
}

pub fn plan_slot_switch(
    job: &Job,
    health: &HealthConfig,
    port: u16,
    slot: char,
    active: Option<char>,
) -> (r: Vec<Step>)
    ensures
        steps_view(r@) == slot_switch_steps(*job, *health, port, slot, active),
{
    let unit = service_unit_name(job.app.as_str(), false);
    let mut steps = no_steps();
    add_step(&mut steps, Step::Send(activation(job, "activate release")));
    add_required(&mut steps, stable_install(job));
    add_required(&mut steps, disable_service(&job.os, unit.as_str()));
    add_required(&mut steps, slot_enable(&job.os, job.app.as_str(), slot));
    match active {
        Some(old) => {
            put_slot_stopped(&mut steps, &job.os, job.app.as_str(), old);
        },
        None => {
            add_attempted(
                &mut steps,
                service_action(&job.os, unit.as_str(), LifecycleAction::Stop),
            );
        },
    }
    add_required(&mut steps, write_active_slot(job.root.as_str(), job.app.as_str(), slot));
    add_step(&mut steps, Step::Send(remote_healthcheck(port, health)));
    steps
}

} // verus!
