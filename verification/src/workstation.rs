//! Commands on this computer.

use crate::error::{unit_outcome, CiaoError, ErrorView};
use crate::remote::{
    file_sought, output_outcome, ran_at_terminal, ran_here, CommandOutput, CommandSpec, CommandView, Log,
    OutputView, Session, Workstation,
};
use crate::steps::{commands_view, plan_outcome};
use crate::text::{opt_text, replace, replaced, texts};
use vstd::prelude::*;

verus! {

/// The output of a command that has to end with status 0.
pub open spec fn local_success(stage: Seq<char>, x: Result<OutputView, ErrorView>) -> Result<
    OutputView,
    ErrorView,
> {
    match x {
        Err(error) => Err(error),
        Ok(output) => if output.status == 0 {
            Ok(output)
        } else {
            Err(
                ErrorView::LocalCommand {
                    stage,
                    exit: output.status,
                    stdout: output.stdout,
                    stderr: output.stderr,
                },
            )
        },
    }
}

/// Takes any exit status but 0 for an error.
pub fn require_success(stage: &str, outcome: Result<CommandOutput, CiaoError>) -> (r: Result<
    CommandOutput,
    CiaoError,
>)
    ensures
        output_outcome(r) == local_success(stage@, output_outcome(outcome)),
{
    match outcome {
        Err(error) => Err(error),
        Ok(output) => if output.status == 0 {
            Ok(output)
        } else {
            Err(
                CiaoError::LocalCommand {
                    stage: stage.to_owned(),
                    exit: output.status,
                    stdout: output.stdout,
                    stderr: output.stderr,
                },
            )
        },
    }
}

/// A command was run on this computer and had to succeed.
pub open spec fn local_done(
    command: CommandView,
    a: Log,
    b: Log,
    r: Result<OutputView, ErrorView>,
) -> bool {
    exists|x: Result<OutputView, ErrorView>|
        #[trigger] ran_here(command, a, b, x) && r == local_success(command.stage, x)
}

/// Runs a command on this computer that has to succeed.
pub fn run_local_command<T: Workstation>(
    session: &mut Session<T>,
    command: CommandSpec,
) -> (r: Result<CommandOutput, CiaoError>)
    ensures
        final(session).peer() == old(session).peer(),
        local_done(command@, old(session)@, final(session)@, output_outcome(r)),
{
    let stage = command.stage.clone();
    let outcome = session.run(command);
    require_success(stage.as_str(), outcome)
}

/// A script with privileges, in which `sudo` asks for the password first.
pub open spec fn privileged_script(script: Seq<char>, sudo: Seq<char>) -> Seq<char> {
    "set -eu\nsudo -v </dev/tty >/dev/tty 2>/dev/tty\n"@ + replace(script, "sudo -n"@, sudo)
}

pub fn local_privileged_script_with_sudo(script: &str, sudo_prefix: &str) -> (r: String)
    ensures
        r@ == privileged_script(script@, sudo_prefix@),
{
    proof {
        reveal_strlit("sudo -n");
    }
    "set -eu\nsudo -v </dev/tty >/dev/tty 2>/dev/tty\n".to_owned().concat(
        replaced(script, "sudo -n", sudo_prefix).as_str(),
    )
}

/// Whether `sudo` works without a password was tried.
pub open spec fn sudo_probe() -> CommandView {
    crate::remote::plain_command("sudo"@, seq!["-n"@, "true"@], "check cached sudo"@)
}

pub open spec fn sudo_prefix_for(probe: Result<OutputView, ErrorView>) -> Seq<char> {
    match probe {
        Ok(output) => if output.status == 0 {
            "sudo -n"@
        } else {
            "sudo"@
        },
        Err(_) => "sudo"@,
    }
}

/// A privileged script was run at the terminal: where `sudo` does not have the
/// password, the user is asked for it.
pub open spec fn privileged_done(
    script: Seq<char>,
    a: Log,
    b: Log,
    r: Result<OutputView, ErrorView>,
) -> bool {
    exists|m: Log, probe: Result<OutputView, ErrorView>|
        #[trigger] ran_here(sudo_probe(), a, m, probe) && ran_at_terminal(
            privileged_script(script, sudo_prefix_for(probe)),
            true,
            m,
            b,
            r,
        )
}

pub fn run_local_privileged_script<T: Workstation>(
    session: &mut Session<T>,
    script: &str,
) -> (r: Result<CommandOutput, CiaoError>)
    ensures
        final(session).peer() == old(session).peer(),
        privileged_done(script@, old(session)@, final(session)@, output_outcome(r)),
{
    let command = CommandSpec::fixed("sudo", &["-n", "true"], "check cached sudo");
    assert(command@.args =~= seq!["-n"@, "true"@]);
    assert(command@ == sudo_probe());
    let probe = session.run(command);
    let cached = match &probe {
        Ok(output) => output.status == 0,
        Err(_) => false,
    };
    let prefix = if cached {
        "sudo -n"
    } else {
        "sudo"
    };
    let text = local_privileged_script_with_sudo(script, prefix);
    session.run_at_terminal(text.as_str(), true)
}

// ---------------------------------------------------------------------------
// Several commands
// ---------------------------------------------------------------------------

/// The commands were run on this computer in order, up to the first one that
/// did not succeed.
pub open spec fn ran_in_order(
    commands: Seq<CommandView>,
    a: Log,
    b: Log,
    r: Result<(), ErrorView>,
) -> bool
    decreases commands.len(),
{
    if commands.len() == 0 {
        b == a && r == Ok::<(), ErrorView>(())
    } else {
        exists|m: Log, x: Result<OutputView, ErrorView>|
            #[trigger] local_done(commands[0], a, m, x) && match x {
                Err(error) => b == m && r == Err::<(), ErrorView>(error),
                Ok(_) => ran_in_order(commands.skip(1), m, b, r),
            }
    }
}

/// An operation on this computer was refused, or its commands were run.
pub open spec fn performed_here(
    plan: Result<Seq<CommandView>, ErrorView>,
    a: Log,
    b: Log,
    r: Result<(), ErrorView>,
) -> bool {
    match plan {
        Ok(commands) => ran_in_order(commands, a, b, r),
        Err(error) => b == a && r == Err::<(), ErrorView>(error),
    }
}

fn run_from<T: Workstation>(
    session: &mut Session<T>,
    commands: &Vec<CommandSpec>,
    at: usize,
) -> (r: Result<(), CiaoError>)
    requires
        at <= commands@.len(),
    ensures
        final(session).peer() == old(session).peer(),
        ran_in_order(
            commands_view(commands@).skip(at as int),
            old(session)@,
            final(session)@,
            unit_outcome(r),
        ),
    decreases commands@.len() - at,
{
    let ghost left = commands_view(commands@).skip(at as int);
    if at == commands.len() {
        return Ok(());
    }
    assert(left[0] == commands@[at as int]@);
    assert(left.skip(1) =~= commands_view(commands@).skip(at + 1));
    let outcome = run_local_command(session, commands[at].clone());
    let ghost view = output_outcome(outcome);
    match outcome {
        Err(error) => {
            assert(view == Err::<OutputView, ErrorView>(error@));
            Err(error)
        },
        Ok(output) => {
            assert(view == Ok::<OutputView, ErrorView>(output@));
            run_from(session, commands, at + 1)
        },
    }
}

/// Runs the commands of an operation on this computer, unless it is refused.
pub fn perform_here<T: Workstation>(
    session: &mut Session<T>,
    plan: Result<Vec<CommandSpec>, CiaoError>,
) -> (r: Result<(), CiaoError>)
    ensures
        final(session).peer() == old(session).peer(),
        performed_here(plan_outcome(plan), old(session)@, final(session)@, unit_outcome(r)),
{
    match plan {
        Err(error) => Err(error),
        Ok(commands) => {
            assert(commands_view(commands@).skip(0) =~= commands_view(commands@));
            run_from(session, &commands, 0)
        },
    }
}

// ---------------------------------------------------------------------------
// Files
// ---------------------------------------------------------------------------

/// The paths were tried from `from` on, up to the first that is a file.
pub open spec fn first_file(
    paths: Seq<Seq<char>>,
    from: nat,
    a: Log,
    b: Log,
    r: Option<Seq<char>>,
) -> bool
    decreases paths.len() - from,
{
    if from >= paths.len() {
        b == a && r is None
    } else {
        exists|m: Log, yes: bool|
            #[trigger] file_sought(paths[from as int], a, m, yes) && if yes {
                b == m && r == Some(paths[from as int])
            } else {
                first_file(paths, from + 1, m, b, r)
            }
    }
}

pub fn find_file<T: Workstation>(session: &mut Session<T>, paths: &Vec<String>, from: usize) -> (r:
    Option<String>)
    requires
        from <= paths@.len(),
    ensures
        final(session).peer() == old(session).peer(),
        first_file(texts(paths@), from as nat, old(session)@, final(session)@, opt_text(r)),
    decreases paths@.len() - from,
{
    if from == paths.len() {
        return None;
    }
    assert(texts(paths@)[from as int] == paths@[from as int]@);
    if session.is_file(paths[from].as_str()) {
        Some(paths[from].clone())
    } else {
        find_file(session, paths, from + 1)
    }
}

} // verus!
