//! Straight-line work on a host, written down as steps and run in order.

use crate::error::{error_message, unit_outcome, CiaoError, ErrorView};
use crate::redact::{redact_hook_error, redacted_hook_error};
use crate::remote::{
    output_outcome, CommandOutput, CommandSpec, CommandView, DeployHost, Exchange, Log, Notice,
    OutputView, ProgressReporter, RemoteHost, Session,
};
use crate::text::opt_str;
use vstd::prelude::*;

verus! {

/// One step of straight-line work.
pub enum Step {
    /// Opens the progress step of this name, unless the user asked to stop.
    Begin(String),
    /// Closes the open progress step.
    End,
    /// Runs a command that has to succeed.
    Send(CommandSpec),
    /// Runs a command; where it fails, the given number of further steps are
    /// passed over and the work goes on.
    Attempt(CommandSpec, usize),
    /// Runs the command of a hook, whose error is shown without secrets.
    Hook(CommandSpec),
    /// Runs a command and then, whatever came of it, one that cleans up after
    /// it. The text names the clean-up.
    Guarded(CommandSpec, CommandSpec),
    /// Uploads a source tree to a directory of the host.
    Upload(String, String),
    /// Ends the work with this error.
    Fail(CiaoError),
}

/// A step as plain data.
pub enum StepView {
    Begin(Seq<char>),
    End,
    Send(CommandView),
    Attempt(CommandView, nat),
    Hook(CommandView),
    Guarded(CommandView, CommandView),
    Upload(Seq<char>, Seq<char>),
    Fail(ErrorView),
}

impl View for Step {
    type V = StepView;

    open spec fn view(&self) -> StepView {
        match *self {
            Step::Begin(name) => StepView::Begin(name@),
            Step::End => StepView::End,
            Step::Send(command) => StepView::Send(command@),
            Step::Attempt(command, skip) => StepView::Attempt(command@, skip as nat),
            Step::Hook(command) => StepView::Hook(command@),
            Step::Guarded(command, cleanup) => StepView::Guarded(command@, cleanup@),
            Step::Upload(source, destination) => StepView::Upload(source@, destination@),
            Step::Fail(error) => StepView::Fail(error@),
        }
    }
}

/// The views of a list of steps.
pub open spec fn steps_view(steps: Seq<Step>) -> Seq<StepView> {
    Seq::new(steps.len(), |i: int| steps[i]@)
}

/// The error of a step that the user interrupted before it started.
pub open spec fn interrupted() -> ErrorView {
    ErrorView::Config("operation interrupted by user"@)
}

/// The error of a step that failed while the user asked to stop.
pub open spec fn interrupted_during(name: Seq<char>, error: ErrorView) -> ErrorView {
    ErrorView::Config(
        "operation interrupted by user during "@ + name + ": "@ + error_message(error),
    )
}

/// A progress step was opened: the reporter was asked whether to stop, and was
/// told that the step started, or that it failed.
pub open spec fn opened(name: Seq<char>, a: Log, b: Log, r: Result<(), ErrorView>) -> bool {
    &&& b.len() == a.len() + 2
    &&& b[a.len() as int] matches Exchange::Cancelled(stop)
    &&& if stop {
        b == a.push(Exchange::Cancelled(true)).push(Exchange::Notice(Notice::Failed, name)) && r
            == Err::<(), ErrorView>(interrupted())
    } else {
        b == a.push(Exchange::Cancelled(false)).push(Exchange::Notice(Notice::Started, name)) && r
            == Ok::<(), ErrorView>(())
    }
}

/// A progress step ended with `error`: the reporter was told so and asked
/// whether the user wanted to stop.
pub open spec fn closed_by(
    name: Seq<char>,
    error: ErrorView,
    a: Log,
    b: Log,
    r: ErrorView,
) -> bool {
    &&& b.len() == a.len() + 2
    &&& b[a.len() as int + 1] matches Exchange::Cancelled(stop)
    &&& b == a.push(Exchange::Notice(Notice::Failed, name)).push(Exchange::Cancelled(stop))
    &&& r == if stop {
        interrupted_during(name, error)
    } else {
        error
    }
}

/// Opens a progress step.
pub fn open_step<T, P: ProgressReporter>(
    session: &mut Session<T>,
    reporter: &P,
    name: &str,
) -> (r: Result<(), CiaoError>)
    ensures
        final(session).peer() == old(session).peer(),
        opened(name@, old(session)@, final(session)@, unit_outcome(r)),
{
    if session.cancelled(reporter) {
        session.failed(reporter, name);
        return Err(CiaoError::Config("operation interrupted by user".to_owned()));
    }
    session.started(reporter, name);
    Ok(())
}

/// Closes a progress step that failed.
pub fn close_failed<T, P: ProgressReporter>(
    session: &mut Session<T>,
    reporter: &P,
    name: &str,
    error: CiaoError,
) -> (r: CiaoError)
    ensures
        final(session).peer() == old(session).peer(),
        closed_by(name@, error@, old(session)@, final(session)@, r@),
{
    session.failed(reporter, name);
    if session.cancelled(reporter) {
        CiaoError::Config(
            "operation interrupted by user during ".to_owned().concat(name).concat(": ").concat(
                error.message().as_str(),
            ),
        )
    } else {
        error
    }
}

/// A progress step ended with the outcome `x`, which became `r`.
pub open spec fn closed_with<V>(
    name: Seq<char>,
    x: Result<V, ErrorView>,
    a: Log,
    b: Log,
    r: Result<V, ErrorView>,
) -> bool {
    match x {
        Ok(value) => b == a.push(Exchange::Notice(Notice::Finished, name)) && r == x,
        Err(error) => r is Err && closed_by(name, error, a, b, r->Err_0),
    }
}

/// Closes a progress step.
pub fn close_step<T, P: ProgressReporter, V>(
    session: &mut Session<T>,
    reporter: &P,
    name: &str,
    outcome: Result<V, CiaoError>,
) -> (r: Result<V, CiaoError>)
    ensures
        final(session).peer() == old(session).peer(),
        match outcome {
            Ok(value) => r == Ok::<V, CiaoError>(value) && final(session)@ == old(session)@.push(
                Exchange::Notice(Notice::Finished, name@),
            ),
            Err(error) => r is Err && closed_by(
                name@,
                error@,
                old(session)@,
                final(session)@,
                r->Err_0@,
            ),
        },
{
    match outcome {
        Ok(value) => {
            session.finished(reporter, name);
            Ok(value)
        },
        Err(error) => Err(close_failed(session, reporter, name, error)),
    }
}

/// The error of a guarded command and its clean-up, where there is one.
pub open spec fn guarded_error(
    command: Result<OutputView, ErrorView>,
    cleanup: Result<OutputView, ErrorView>,
    stage: Seq<char>,
) -> Option<ErrorView> {
    match (command, cleanup) {
        (Ok(_), Ok(_)) => None,
        (Err(error), Ok(_)) => Some(error),
        (Ok(_), Err(error)) => Some(error),
        (Err(error), Err(other)) => Some(
            ErrorView::Deployment {
                stage,
                message: error_message(error) + "; candidate cleanup also failed: "@
                    + error_message(other),
                previous_release: "unknown"@,
            },
        ),
    }
}

fn guarded_outcome(
    command: Result<CommandOutput, CiaoError>,
    cleanup: Result<CommandOutput, CiaoError>,
    stage: &str,
) -> (r: Option<CiaoError>)
    ensures
        match r {
            None => guarded_error(output_outcome(command), output_outcome(cleanup), stage@) is None,
            Some(error) => guarded_error(output_outcome(command), output_outcome(cleanup), stage@)
                == Some(error@),
        },
{
    match (command, cleanup) {
        (Ok(_), Ok(_)) => None,
        (Err(error), Ok(_)) => Some(error),
        (Ok(_), Err(error)) => Some(error),
        (Err(error), Err(other)) => Some(
            CiaoError::Deployment {
                stage: stage.to_owned(),
                message: error.message().concat("; candidate cleanup also failed: ").concat(
                    other.message().as_str(),
                ),
                previous_release: "unknown".to_owned(),
            },
        ),
    }
}

/// The work stopped with `error` inside the progress step `open`, if any.
pub open spec fn stopped(
    open: Option<Seq<char>>,
    error: ErrorView,
    a: Log,
    b: Log,
    r: Result<(), ErrorView>,
) -> bool {
    match open {
        None => b == a && r == Err::<(), ErrorView>(error),
        Some(name) => r is Err && closed_by(name, error, a, b, r->Err_0),
    }
}

/// `steps` were run in order, from the transcript `a` to the transcript `b`,
/// inside the progress step `open`, if any, with the outcome `r`.
///
/// Each step was started only after the one before it had succeeded. The first
/// one that failed ended the work, except that a failed attempt only passes
/// over the steps that depend on it.
pub open spec fn ran(
    steps: Seq<StepView>,
    open: Option<Seq<char>>,
    a: Log,
    b: Log,
    r: Result<(), ErrorView>,
) -> bool
    decreases steps.len(),
{
    if steps.len() == 0 {
        b == a && r == Ok::<(), ErrorView>(())
    } else {
        let rest = steps.skip(1);
        match steps[0] {
            StepView::Begin(name) => {
                let next = b.take(a.len() as int + 2);
                ||| r is Err && opened(name, a, b, r)
                ||| {
                    &&& b.len() >= a.len() + 2
                    &&& opened(name, a, next, Ok(()))
                    &&& ran(rest, Some(name), next, b, r)
                }
            },
            StepView::End => {
                match open {
                    Some(name) => ran(
                        rest,
                        None,
                        a.push(Exchange::Notice(Notice::Finished, name)),
                        b,
                        r,
                    ),
                    None => ran(rest, None, a, b, r),
                }
            },
            StepView::Send(command) => {
                &&& b.len() > a.len()
                &&& b[a.len() as int] matches Exchange::Exec(sent, outcome)
                &&& sent == command
                &&& match outcome {
                    Ok(_) => ran(rest, open, a.push(b[a.len() as int]), b, r),
                    Err(error) => stopped(open, error, a.push(b[a.len() as int]), b, r),
                }
            },
            StepView::Attempt(command, skip) => {
                &&& b.len() > a.len()
                &&& b[a.len() as int] matches Exchange::Exec(sent, outcome)
                &&& sent == command
                &&& match outcome {
                    Ok(_) => ran(rest, open, a.push(b[a.len() as int]), b, r),
                    Err(_) => ran(
                        if skip <= rest.len() {
                            rest.skip(skip as int)
                        } else {
                            Seq::empty()
                        },
                        open,
                        a.push(b[a.len() as int]),
                        b,
                        r,
                    ),
                }
            },
            StepView::Hook(command) => {
                &&& b.len() > a.len()
                &&& b[a.len() as int] matches Exchange::Exec(sent, outcome)
                &&& sent == command
                &&& match outcome {
                    Ok(_) => ran(rest, open, a.push(b[a.len() as int]), b, r),
                    Err(error) => stopped(
                        open,
                        redacted_hook_error(error),
                        a.push(b[a.len() as int]),
                        b,
                        r,
                    ),
                }
            },
            StepView::Guarded(command, cleanup) => {
                let next = a.push(b[a.len() as int]).push(b[a.len() as int + 1]);
                &&& b.len() > a.len() + 1
                &&& b[a.len() as int] matches Exchange::Exec(first, outcome)
                &&& b[a.len() as int + 1] matches Exchange::Exec(second, after)
                &&& first == command && second == cleanup
                &&& match guarded_error(outcome, after, cleanup.stage) {
                    None => ran(rest, open, next, b, r),
                    Some(error) => stopped(open, error, next, b, r),
                }
            },
            StepView::Upload(source, destination) => {
                &&& b.len() > a.len()
                &&& b[a.len() as int] matches Exchange::Upload(from, to, outcome)
                &&& from == source && to == destination
                &&& match outcome {
                    Ok(_) => ran(rest, open, a.push(b[a.len() as int]), b, r),
                    Err(error) => stopped(open, error, a.push(b[a.len() as int]), b, r),
                }
            },
            StepView::Fail(error) => stopped(open, error, a, b, r),
        }
    }
}

/// Running steps only adds to the transcript.
pub proof fn lemma_ran_extends(
    steps: Seq<StepView>,
    open: Option<Seq<char>>,
    a: Log,
    b: Log,
    r: Result<(), ErrorView>,
)
    requires
        ran(steps, open, a, b, r),
    ensures
        a.len() <= b.len(),
        b.take(a.len() as int) == a,
    decreases steps.len(),
{
    if steps.len() > 0 {
        let rest = steps.skip(1);
        let n = a.len() as int;
        match steps[0] {
            StepView::Begin(name) => {
                let next = b.take(n + 2);
                if b.len() >= n + 2 && opened(name, a, next, Ok(())) && ran(rest, Some(name), next, b, r) {
                    assert(b.take(n) =~= next.take(n));
                    assert(next.take(n) =~= a);
                } else {
                    assert(b.take(n) =~= a);
                }
            },
            StepView::End => {
                match open {
                    Some(name) => {
                        let next = a.push(Exchange::Notice(Notice::Finished, name));
                        lemma_ran_extends(rest, None, next, b, r);
                        assert(b.take(n) =~= b.take(n + 1).take(n));
                        assert(next.take(n) =~= a);
                    },
                    None => {
                        lemma_ran_extends(rest, None, a, b, r);
                    },
                }
            },
            StepView::Send(command) => {
                let next = a.push(b[n]);
                match b[n] {
                    Exchange::Exec(_, Ok(_)) => {
                        lemma_ran_extends(rest, open, next, b, r);
                        assert(b.take(n) =~= b.take(n + 1).take(n));
                    },
                    Exchange::Exec(_, Err(error)) => {
                        assert(b.take(n) =~= a);
                    },
                    _ => {},
                }
                assert(next.take(n) =~= a);
            },
            StepView::Attempt(command, skip) => {
                let next = a.push(b[n]);
                match b[n] {
                    Exchange::Exec(_, Ok(_)) => {
                        lemma_ran_extends(rest, open, next, b, r);
                    },
                    Exchange::Exec(_, Err(error)) => {
                        let left = if skip <= rest.len() {
                            rest.skip(skip as int)
                        } else {
                            Seq::empty()
                        };
                        lemma_ran_extends(left, open, next, b, r);
                    },
                    _ => {},
                }
                assert(b.take(n) =~= b.take(n + 1).take(n));
                assert(next.take(n) =~= a);
            },
            StepView::Hook(command) => {
                let next = a.push(b[n]);
                match b[n] {
                    Exchange::Exec(_, Ok(_)) => {
                        lemma_ran_extends(rest, open, next, b, r);
                        assert(b.take(n) =~= b.take(n + 1).take(n));
                    },
                    Exchange::Exec(_, Err(error)) => {
                        assert(b.take(n) =~= a);
                    },
                    _ => {},
                }
                assert(next.take(n) =~= a);
            },
            StepView::Guarded(command, cleanup) => {
                let next = a.push(b[n]).push(b[n + 1]);
                match (b[n], b[n + 1]) {
                    (Exchange::Exec(_, outcome), Exchange::Exec(_, after)) => {
                        if guarded_error(outcome, after, cleanup.stage) is None {
                            lemma_ran_extends(rest, open, next, b, r);
                            assert(b.take(n) =~= b.take(n + 2).take(n));
                        } else {
                            assert(b.take(n) =~= a);
                        }
                    },
                    _ => {},
                }
                assert(next.take(n) =~= a);
            },
            StepView::Upload(source, destination) => {
                let next = a.push(b[n]);
                match b[n] {
                    Exchange::Upload(_, _, Ok(_)) => {
                        lemma_ran_extends(rest, open, next, b, r);
                        assert(b.take(n) =~= b.take(n + 1).take(n));
                    },
                    Exchange::Upload(_, _, Err(error)) => {
                        assert(b.take(n) =~= a);
                    },
                    _ => {},
                }
                assert(next.take(n) =~= a);
            },
            StepView::Fail(error) => {
                assert(b.take(n) =~= a);
            },
        }
    } else {
        assert(b.take(a.len() as int) =~= a);
    }
}

/// Runs `steps[at..]` inside the progress step `open`, if any.
fn run_from<T: DeployHost, P: ProgressReporter>(
    session: &mut Session<T>,
    reporter: &P,
    steps: &Vec<Step>,
    at: usize,
    open: Option<&str>,
) -> (r: Result<(), CiaoError>)
    requires
        at <= steps@.len(),
    ensures
        final(session).peer() == old(session).peer(),
        ran(
            steps_view(steps@).skip(at as int),
            opt_str(open),
            old(session)@,
            final(session)@,
            unit_outcome(r),
        ),
    decreases steps@.len() - at,
{
    let ghost left = steps_view(steps@).skip(at as int);
    let ghost before = session@;
    let ghost n = session@.len() as int;
    if at == steps.len() {
        return Ok(());
    }
    assert(left[0] == steps@[at as int]@);
    assert(left.skip(1) =~= steps_view(steps@).skip(at + 1));
    match &steps[at] {
        Step::Begin(name) => {
            match open_step(session, reporter, name.as_str()) {
                Err(error) => Err(error),
                Ok(()) => {
                    let ghost middle = session@;
                    let r = run_from(session, reporter, steps, at + 1, Some(name.as_str()));
                    proof {
                        lemma_ran_extends(
                            left.skip(1),
                            Some(name@),
                            middle,
                            session@,
                            unit_outcome(r),
                        );
                        assert(session@.take(n + 2) =~= middle);
                    }
                    r
                },
            }
        },
        Step::End => {
            match open {
                Some(name) => {
                    session.finished(reporter, name);
                },
                None => {},
            }
            run_from(session, reporter, steps, at + 1, None)
        },
        Step::Send(command) => {
            match session.exec(command.clone()) {
                Err(error) => {
                    let ghost middle = session@;
                    let r = fail_in(session, reporter, open, error);
                    assert(session@[n] == middle[n]);
                    assert(middle =~= before.push(session@[n]));
                    r
                },
                Ok(_) => {
                    let ghost middle = session@;
                    let r = run_from(session, reporter, steps, at + 1, open);
                    proof {
                        lemma_ran_extends(
                            left.skip(1),
                            opt_str(open),
                            middle,
                            session@,
                            unit_outcome(r),
                        );
                        assert(session@.take(n + 1)[n] == session@[n]);
                        assert(middle =~= before.push(session@[n]));
                    }
                    r
                },
            }
        },
        Step::Attempt(command, skip) => {
            match session.exec(command.clone()) {
                Err(_) => {
                    let ghost middle = session@;
                    let next: usize = if *skip <= steps.len() - at - 1 {
                        at + 1 + *skip
                    } else {
                        steps.len()
                    };
                    let r = run_from(session, reporter, steps, next, open);
                    proof {
                        let rest = left.skip(1);
                        let passed = if *skip as nat <= rest.len() {
                            rest.skip(*skip as int)
                        } else {
                            Seq::empty()
                        };
                        assert(passed =~= steps_view(steps@).skip(next as int));
                        lemma_ran_extends(passed, opt_str(open), middle, session@, unit_outcome(r));
                        assert(session@.take(n + 1)[n] == session@[n]);
                        assert(middle =~= before.push(session@[n]));
                    }
                    r
                },
                Ok(_) => {
                    let ghost middle = session@;
                    let r = run_from(session, reporter, steps, at + 1, open);
                    proof {
                        lemma_ran_extends(
                            left.skip(1),
                            opt_str(open),
                            middle,
                            session@,
                            unit_outcome(r),
                        );
                        assert(session@.take(n + 1)[n] == session@[n]);
                        assert(middle =~= before.push(session@[n]));
                    }
                    r
                },
            }
        },
        Step::Hook(command) => {
            match session.exec(command.clone()) {
                Err(error) => {
                    let ghost middle = session@;
                    let r = fail_in(session, reporter, open, redact_hook_error(error));
                    assert(session@[n] == middle[n]);
                    assert(middle =~= before.push(session@[n]));
                    r
                },
                Ok(_) => {
                    let ghost middle = session@;
                    let r = run_from(session, reporter, steps, at + 1, open);
                    proof {
                        lemma_ran_extends(
                            left.skip(1),
                            opt_str(open),
                            middle,
                            session@,
                            unit_outcome(r),
                        );
                        assert(session@.take(n + 1)[n] == session@[n]);
                        assert(middle =~= before.push(session@[n]));
                    }
                    r
                },
            }
        },
        Step::Guarded(command, cleanup) => {
            let outcome = session.exec(command.clone());
            let after = session.exec(cleanup.clone());
            let ghost middle = session@;
            match guarded_outcome(outcome, after, cleanup.stage.as_str()) {
                Some(error) => {
                    let r = fail_in(session, reporter, open, error);
                    assert(session@[n] == middle[n] && session@[n + 1] == middle[n + 1]);
                    assert(middle =~= before.push(session@[n]).push(session@[n + 1]));
                    r
                },
                None => {
                    let r = run_from(session, reporter, steps, at + 1, open);
                    proof {
                        lemma_ran_extends(
                            left.skip(1),
                            opt_str(open),
                            middle,
                            session@,
                            unit_outcome(r),
                        );
                        assert(session@.take(n + 2)[n] == session@[n]);
                        assert(session@.take(n + 2)[n + 1] == session@[n + 1]);
                        assert(middle =~= before.push(session@[n]).push(session@[n + 1]));
                    }
                    r
                },
            }
        },
        Step::Upload(source, destination) => {
            match session.upload_source(source.as_str(), destination.as_str()) {
                Err(error) => {
                    let ghost middle = session@;
                    let r = fail_in(session, reporter, open, error);
                    assert(session@[n] == middle[n]);
                    assert(middle =~= before.push(session@[n]));
                    r
                },
                Ok(_) => {
                    let ghost middle = session@;
                    let r = run_from(session, reporter, steps, at + 1, open);
                    proof {
                        lemma_ran_extends(
                            left.skip(1),
                            opt_str(open),
                            middle,
                            session@,
                            unit_outcome(r),
                        );
                        assert(session@.take(n + 1)[n] == session@[n]);
                        assert(middle =~= before.push(session@[n]));
                    }
                    r
                },
            }
        },
        Step::Fail(error) => fail_in(session, reporter, open, error.copy()),
    }
}

/// Ends the work with `error` inside the progress step `open`, if any.
fn fail_in<T, P: ProgressReporter>(
    session: &mut Session<T>,
    reporter: &P,
    open: Option<&str>,
    error: CiaoError,
) -> (r: Result<(), CiaoError>)
    ensures
        final(session).peer() == old(session).peer(),
        stopped(opt_str(open), error@, old(session)@, final(session)@, unit_outcome(r)),
{
    match open {
        None => Err(error),
        Some(name) => Err(close_failed(session, reporter, name, error)),
    }
}

/// Runs `steps` in order.
pub fn run_steps<T: DeployHost, P: ProgressReporter>(
    session: &mut Session<T>,
    reporter: &P,
    steps: &Vec<Step>,
) -> (r: Result<(), CiaoError>)
    ensures
        final(session).peer() == old(session).peer(),
        ran(steps_view(steps@), None, old(session)@, final(session)@, unit_outcome(r)),
{
    assert(steps_view(steps@).skip(0) =~= steps_view(steps@));
    run_from(session, reporter, steps, 0, None)
}

// ---------------------------------------------------------------------------
// Questions
// ---------------------------------------------------------------------------

/// One command was sent, and `r` is what `answer` makes of its output, or its
/// error.
pub open spec fn asked<V>(
    command: CommandView,
    answer: spec_fn(OutputView) -> Result<V, ErrorView>,
    a: Log,
    b: Log,
    r: Result<V, ErrorView>,
) -> bool {
    &&& b.len() == a.len() + 1
    &&& b == a.push(b.last())
    &&& b.last() matches Exchange::Exec(sent, outcome)
    &&& sent == command
    &&& r == match outcome {
        Ok(output) => answer(output),
        Err(error) => Err(error),
    }
}

// ---------------------------------------------------------------------------
// Lists of commands
// ---------------------------------------------------------------------------

pub open spec fn commands_view(commands: Seq<CommandSpec>) -> Seq<CommandView> {
    Seq::new(commands.len(), |i: int| commands[i]@)
}

/// The commands that an operation consists of, or why it is refused before
/// anything is sent.
pub open spec fn plan_outcome(r: Result<Vec<CommandSpec>, CiaoError>) -> Result<
    Seq<CommandView>,
    ErrorView,
> {
    match r {
        Ok(commands) => Ok(commands_view(commands@)),
        Err(error) => Err(error@),
    }
}

/// The commands were sent in order, up to the first one that failed.
pub open spec fn sent(
    commands: Seq<CommandView>,
    a: Log,
    b: Log,
    r: Result<(), ErrorView>,
) -> bool
    decreases commands.len(),
{
    if commands.len() == 0 {
        b == a && r == Ok::<(), ErrorView>(())
    } else {
        &&& b.len() > a.len()
        &&& b[a.len() as int] matches Exchange::Exec(command, outcome)
        &&& command == commands[0]
        &&& match outcome {
            Ok(_) => sent(commands.skip(1), a.push(b[a.len() as int]), b, r),
            Err(error) => b == a.push(b[a.len() as int]) && r == Err::<(), ErrorView>(error),
        }
    }
}

/// An operation was refused, or its commands were sent.
pub open spec fn performed(
    plan: Result<Seq<CommandView>, ErrorView>,
    a: Log,
    b: Log,
    r: Result<(), ErrorView>,
) -> bool {
    match plan {
        Ok(commands) => sent(commands, a, b, r),
        Err(error) => b == a && r == Err::<(), ErrorView>(error),
    }
}

pub proof fn lemma_sent_extends(
    commands: Seq<CommandView>,
    a: Log,
    b: Log,
    r: Result<(), ErrorView>,
)
    requires
        sent(commands, a, b, r),
    ensures
        a.len() <= b.len(),
        b.take(a.len() as int) == a,
    decreases commands.len(),
{
    let n = a.len() as int;
    if commands.len() > 0 {
        let next = a.push(b[n]);
        match b[n] {
            Exchange::Exec(_, Ok(_)) => {
                lemma_sent_extends(commands.skip(1), next, b, r);
                assert(b.take(n) =~= b.take(n + 1).take(n));
            },
            _ => {
                assert(b.take(n) =~= a);
            },
        }
        assert(next.take(n) =~= a);
    } else {
        assert(b.take(n) =~= a);
    }
}

/// Sends the commands of `commands[at..]`.
fn send_from<T: RemoteHost>(
    session: &mut Session<T>,
    commands: &Vec<CommandSpec>,
    at: usize,
) -> (r: Result<(), CiaoError>)
    requires
        at <= commands@.len(),
    ensures
        final(session).peer() == old(session).peer(),
        sent(
            commands_view(commands@).skip(at as int),
            old(session)@,
            final(session)@,
            unit_outcome(r),
        ),
    decreases commands@.len() - at,
{
    let ghost left = commands_view(commands@).skip(at as int);
    let ghost before = session@;
    let ghost n = session@.len() as int;
    if at == commands.len() {
        return Ok(());
    }
    assert(left[0] == commands@[at as int]@);
    assert(left.skip(1) =~= commands_view(commands@).skip(at + 1));
    match session.exec(commands[at].clone()) {
        Err(error) => Err(error),
        Ok(_) => {
            let ghost middle = session@;
            let r = send_from(session, commands, at + 1);
            proof {
                lemma_sent_extends(left.skip(1), middle, session@, unit_outcome(r));
                assert(session@.take(n + 1)[n] == session@[n]);
                assert(middle =~= before.push(session@[n]));
            }
            r
        },
    }
}

/// Sends the commands of an operation, unless it is refused.
pub fn perform<T: RemoteHost>(
    session: &mut Session<T>,
    plan: Result<Vec<CommandSpec>, CiaoError>,
) -> (r: Result<(), CiaoError>)
    ensures
        final(session).peer() == old(session).peer(),
        performed(plan_outcome(plan), old(session)@, final(session)@, unit_outcome(r)),
{
    match plan {
        Err(error) => Err(error),
        Ok(commands) => {
            assert(commands_view(commands@).skip(0) =~= commands_view(commands@));
            send_from(session, &commands, 0)
        },
    }
}

/// An operation of one command.
pub open spec fn one(command: CommandView) -> Result<Seq<CommandView>, ErrorView> {
    Ok(seq![command])
}

pub fn single_plan(command: CommandSpec) -> (r: Result<Vec<CommandSpec>, CiaoError>)
    ensures
        plan_outcome(r) == one(command@),
{
    let list: Vec<CommandSpec> = vec![command];
    assert(commands_view(list@) =~= seq![command@]);
    Ok(list)
}

/// An operation whose failure ends the work, as steps.
pub open spec fn required(plan: Result<Seq<CommandView>, ErrorView>) -> Seq<StepView> {
    match plan {
        Ok(commands) => Seq::new(commands.len(), |i: int| StepView::Send(commands[i])),
        Err(error) => seq![StepView::Fail(error)],
    }
}

/// An operation whose failure is passed over, as steps.
pub open spec fn attempted(plan: Result<Seq<CommandView>, ErrorView>) -> Seq<StepView> {
    match plan {
        Ok(commands) => Seq::new(
            commands.len(),
            |i: int| StepView::Attempt(commands[i], (commands.len() - 1 - i) as nat),
        ),
        Err(error) => Seq::empty(),
    }
}

/// Adds a step at the end.
pub fn add_step(steps: &mut Vec<Step>, step: Step)
    ensures
        steps_view(final(steps)@) == steps_view(old(steps)@).push(step@),
{
    let ghost before = steps@;
    steps.push(step);
    assert(steps_view(steps@) =~= steps_view(before).push(step@));
}

/// Adds an operation whose failure ends the work.
pub fn add_required(steps: &mut Vec<Step>, plan: Result<Vec<CommandSpec>, CiaoError>)
    ensures
        steps_view(final(steps)@) == steps_view(old(steps)@) + required(plan_outcome(plan)),
{
    let ghost before = steps@;
    match plan {
        Err(error) => {
            steps.push(Step::Fail(error));
            assert(steps_view(steps@) =~= steps_view(before) + required(plan_outcome(plan)));
        },
        Ok(commands) => {
            let ghost all = required(plan_outcome(plan));
            let mut i: usize = 0;
            assert(steps_view(steps@) =~= steps_view(before) + all.take(0));
            while i < commands.len()
                invariant
                    i <= commands@.len(),
                    all == required(Ok(commands_view(commands@))),
                    steps_view(steps@) == steps_view(before) + all.take(i as int),
                decreases commands@.len() - i,
            {
                let ghost mid = steps@;
                let step = Step::Send(commands[i].clone());
                assert(step@ == all[i as int]);
                steps.push(step);
                assert(steps_view(steps@) =~= steps_view(mid).push(all[i as int]));
                i += 1;
                assert(steps_view(steps@) =~= steps_view(before) + all.take(i as int));
            }
            assert(all.take(i as int) =~= all);
        },
    }
}

/// Adds an operation whose failure is passed over.
pub fn add_attempted(steps: &mut Vec<Step>, plan: Result<Vec<CommandSpec>, CiaoError>)
    ensures
        steps_view(final(steps)@) == steps_view(old(steps)@) + attempted(plan_outcome(plan)),
{
    let ghost before = steps@;
    match plan {
        Err(_) => {
            assert(steps_view(steps@) =~= steps_view(before) + attempted(plan_outcome(plan)));
        },
        Ok(commands) => {
            let ghost all = attempted(plan_outcome(plan));
            let mut i: usize = 0;
            assert(steps_view(steps@) =~= steps_view(before) + all.take(0));
            while i < commands.len()
                invariant
                    i <= commands@.len(),
                    all == attempted(Ok(commands_view(commands@))),
                    steps_view(steps@) == steps_view(before) + all.take(i as int),
                decreases commands@.len() - i,
            {
                let ghost mid = steps@;
                let step = Step::Attempt(commands[i].clone(), commands.len() - 1 - i);
                assert(step@ == all[i as int]);
                steps.push(step);
                assert(steps_view(steps@) =~= steps_view(mid).push(all[i as int]));
                i += 1;
                assert(steps_view(steps@) =~= steps_view(before) + all.take(i as int));
            }
            assert(all.take(i as int) =~= all);
        },
    }
}

} // verus!
