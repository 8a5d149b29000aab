//! Small, fixed lifecycle hooks for project-owned deploy actions.

use crate::error::{config_error, unit_outcome, CiaoError, ErrorView};
use crate::redact::{redact_hook_error, redacted_hook_error};
use crate::release::{
    command_script_with_home, home_script_result, run_as_user_script, user_script_plan,
};
use crate::remote::{
    path_resolved, ran_here, script_command, script_spec, CommandSpec, CommandView, Log,
    OutputView, Session, Workstation,
};
use crate::shell::{shell_quote, shell_quoted};
use crate::steps::{plan_outcome, steps_view, Step, StepView};
use crate::text::{
    contains_char, is_blank, strip_prefix, text_is_blank, trim, trimmed, without_prefix,
};
use crate::workstation::{local_success, require_success};
use vstd::prelude::*;

verus! {

/// Why a command cannot be a hook, if it cannot.
pub open spec fn hook_command_check(command: Seq<char>) -> Result<(), ErrorView> {
    if is_blank(command) || command.contains('\0') {
        Err(ErrorView::Config("hook command cannot be empty or contain NUL"@))
    } else {
        Ok(())
    }
}

pub fn validate_hook_command(command: &str) -> (r: Result<(), CiaoError>)
    ensures
        unit_outcome(r) == hook_command_check(command@),
{
    if text_is_blank(command) || contains_char(command, '\0') {
        Err(config_error("hook command cannot be empty or contain NUL"))
    } else {
        Ok(())
    }
}

// ---------------------------------------------------------------------------
// On this computer
// ---------------------------------------------------------------------------

/// The script of a hook on this computer.
pub open spec fn local_hook_command(directory: Seq<char>, command: Seq<char>) -> CommandView {
    script_command(
        "run pre-upload hook"@,
        "set -eu\ncd -- "@ + shell_quoted(directory) + "\n"@ + command + "\n"@,
    )
}

pub open spec fn local_hook_outcome(x: Result<OutputView, ErrorView>) -> Result<(), ErrorView> {
    match local_success("run pre-upload hook"@, x) {
        Ok(_) => Ok(()),
        Err(error) => Err(redacted_hook_error(error)),
    }
}

/// A hook was run in a directory of this computer.
pub open spec fn hook_ran_in(
    directory: Seq<char>,
    command: Seq<char>,
    a: Log,
    b: Log,
    r: Result<(), ErrorView>,
) -> bool {
    exists|x: Result<OutputView, ErrorView>|
        #[trigger] ran_here(local_hook_command(directory, command), a, b, x) && r
            == local_hook_outcome(x)
}

/// What follows the resolution of the directory of a hook.
pub open spec fn hook_ran_after(
    found: Result<(Seq<char>, bool), Seq<char>>,
    command: Seq<char>,
    a: Log,
    b: Log,
    r: Result<(), ErrorView>,
) -> bool {
    match found {
        Err(reason) => b == a && r == Err::<(), ErrorView>(
            ErrorView::Config("cannot resolve hook working directory: "@ + reason),
        ),
        Ok((_, false)) => b == a && r == Err::<(), ErrorView>(
            ErrorView::Config("local hook working directory must be a directory"@),
        ),
        Ok((directory, true)) => hook_ran_in(directory, command, a, b, r),
    }
}

/// A hook was run on this computer, in the project's own directory.
pub open spec fn local_hook_ran(
    source: Seq<char>,
    command: Seq<char>,
    a: Log,
    b: Log,
    r: Result<(), ErrorView>,
) -> bool {
    match hook_command_check(command) {
        Err(error) => b == a && r == Err::<(), ErrorView>(error),
        Ok(_) => exists|m: Log, found: Result<(Seq<char>, bool), Seq<char>>|
            #[trigger] path_resolved(source, a, m, found) && hook_ran_after(
                found,
                command,
                m,
                b,
                r,
            ),
    }
}

fn run_hook_in<T: Workstation>(
    session: &mut Session<T>,
    directory: &str,
    command: &str,
) -> (r: Result<(), CiaoError>)
    ensures
        final(session).peer() == old(session).peer(),
        hook_ran_in(directory@, command@, old(session)@, final(session)@, unit_outcome(r)),
{
    let script = "set -eu\ncd -- ".to_owned().concat(shell_quote(directory).as_str()).concat(
        "\n",
    ).concat(command).concat("\n");
    let outcome = session.run(script_spec("run pre-upload hook", script.as_str()));
    match require_success("run pre-upload hook", outcome) {
        Ok(_) => Ok(()),
        Err(error) => Err(redact_hook_error(error)),
    }
}

/// Runs a hook on this computer, in the project's own directory.
pub fn run_local_hook<T: Workstation>(
    session: &mut Session<T>,
    source: &str,
    command: &str,
) -> (r: Result<(), CiaoError>)
    ensures
        final(session).peer() == old(session).peer(),
        local_hook_ran(source@, command@, old(session)@, final(session)@, unit_outcome(r)),
{
    validate_hook_command(command)?;
    match session.resolve(source) {
        Err(reason) => Err(
            CiaoError::Config(
                "cannot resolve hook working directory: ".to_owned().concat(reason.as_str()),
            ),
        ),
        Ok((directory, is_directory)) => {
            if !is_directory {
                return Err(config_error("local hook working directory must be a directory"));
            }
            run_hook_in(session, directory.as_str(), command)
        },
    }
}

// ---------------------------------------------------------------------------
// On a host
// ---------------------------------------------------------------------------

/// The command of a hook that runs on a host. The prefix `ciao run-remote` may
/// be left out.
pub open spec fn hook_command(command: Seq<char>) -> Seq<char> {
    match without_prefix(trim(command), "ciao run-remote "@) {
        Some(rest) => rest,
        None => trim(command),
    }
}

/// Running a hook on a host as the service user.
pub open spec fn remote_hook_plan(
    user: Seq<char>,
    command: Seq<char>,
    cwd: Seq<char>,
    home: Seq<char>,
    env_file: Seq<char>,
    stage: Seq<char>,
) -> Result<Seq<CommandView>, ErrorView> {
    match hook_command_check(command) {
        Err(error) => Err(error),
        Ok(_) => match home_script_result(hook_command(command), cwd, home, env_file) {
            Err(error) => Err(error),
            Ok(script) => user_script_plan(user, stage, script),
        },
    }
}

pub fn run_remote_hook(
    user: &str,
    command: &str,
    cwd: &str,
    home: &str,
    env_file: &str,
    stage: &str,
) -> (r: Result<Vec<CommandSpec>, CiaoError>)
    ensures
        plan_outcome(r) == remote_hook_plan(user@, command@, cwd@, home@, env_file@, stage@),
{
    validate_hook_command(command)?;
    let text = trimmed(command);
    let bare = match strip_prefix(text.as_str(), "ciao run-remote ") {
        Some(rest) => rest,
        None => text,
    };
    let script = command_script_with_home(bare.as_str(), cwd, home, env_file)?;
    run_as_user_script(user, stage, script.as_str())
}

/// A hook as steps: its failure ends the work, with an error that shows no
/// secrets.
pub open spec fn hooked(plan: Result<Seq<CommandView>, ErrorView>) -> Seq<StepView> {
    match plan {
        Ok(commands) => Seq::new(commands.len(), |i: int| StepView::Hook(commands[i])),
        Err(error) => seq![StepView::Fail(error)],
    }
}

/// Adds a hook at the end of `steps`.
pub fn add_hooked(steps: &mut Vec<Step>, plan: Result<Vec<CommandSpec>, CiaoError>)
    ensures
        steps_view(final(steps)@) == steps_view(old(steps)@) + hooked(plan_outcome(plan)),
{
    let ghost before = steps@;
    match plan {
        Err(error) => {
            steps.push(Step::Fail(error));
            assert(steps_view(steps@) =~= steps_view(before) + hooked(plan_outcome(plan)));
        },
        Ok(commands) => {
            let ghost all = hooked(plan_outcome(plan));
            let mut i: usize = 0;
            assert(steps_view(steps@) =~= steps_view(before) + all.take(0));
            while i < commands.len()
                invariant
                    i <= commands@.len(),
                    all == hooked(Ok(crate::steps::commands_view(commands@))),
                    steps_view(steps@) == steps_view(before) + all.take(i as int),
                decreases commands@.len() - i,
            {
                let ghost mid = steps@;
                let step = Step::Hook(commands[i].clone());
                assert(step@ == all[i as int]);
                steps.push(step);
                assert(steps_view(steps@) =~= steps_view(mid).push(all[i as int]));
                i += 1;
                assert(steps_view(steps@) =~= steps_view(before) + all.take(i as int));
            }
            assert(all.take(i as int) =~= all);
        },
    }
}

} // verus!
