//! The error type of the crate and the text that each error shows.

use crate::text::{signed_decimal, signed_decimal_text};
use vstd::prelude::*;

verus! {

/// Everything that can go wrong while preparing, deploying or operating an
/// application.
#[derive(Debug, PartialEq, Eq)]
pub enum CiaoError {
    InvalidIdentifier { field: &'static str, value: String, reason: &'static str },
    Config(String),
    Detection(String),
    Transport { stage: String, message: String, details: String },
    RemoteCommand { stage: String, exit: i32, stdout: String, stderr: String },
    LocalCommand { stage: String, exit: i32, stdout: String, stderr: String },
    Deployment { stage: String, message: String, previous_release: String },
    Io(String),
    Serialization(String),
}

/// An error as plain text.
pub enum ErrorView {
    InvalidIdentifier { field: Seq<char>, value: Seq<char>, reason: Seq<char> },
    Config(Seq<char>),
    Detection(Seq<char>),
    Transport { stage: Seq<char>, message: Seq<char>, details: Seq<char> },
    RemoteCommand { stage: Seq<char>, exit: int, stdout: Seq<char>, stderr: Seq<char> },
    LocalCommand { stage: Seq<char>, exit: int, stdout: Seq<char>, stderr: Seq<char> },
    Deployment { stage: Seq<char>, message: Seq<char>, previous_release: Seq<char> },
    Io(Seq<char>),
    Serialization(Seq<char>),
}

impl View for CiaoError {
    type V = ErrorView;

    open spec fn view(&self) -> ErrorView {
        match *self {
            CiaoError::InvalidIdentifier { field, value, reason } => ErrorView::InvalidIdentifier {
                field: field@,
                value: value@,
                reason: reason@,
            },
            CiaoError::Config(text) => ErrorView::Config(text@),
            CiaoError::Detection(text) => ErrorView::Detection(text@),
            CiaoError::Transport { stage, message, details } => ErrorView::Transport {
                stage: stage@,
                message: message@,
                details: details@,
            },
            CiaoError::RemoteCommand { stage, exit, stdout, stderr } => ErrorView::RemoteCommand {
                stage: stage@,
                exit: exit as int,
                stdout: stdout@,
                stderr: stderr@,
            },
            CiaoError::LocalCommand { stage, exit, stdout, stderr } => ErrorView::LocalCommand {
                stage: stage@,
                exit: exit as int,
                stdout: stdout@,
                stderr: stderr@,
            },
            CiaoError::Deployment { stage, message, previous_release } => ErrorView::Deployment {
                stage: stage@,
                message: message@,
                previous_release: previous_release@,
            },
            CiaoError::Io(text) => ErrorView::Io(text@),
            CiaoError::Serialization(text) => ErrorView::Serialization(text@),
        }
    }
}

/// The text that an error shows to the user.
pub open spec fn error_message(error: ErrorView) -> Seq<char> {
    match error {
        ErrorView::InvalidIdentifier { field, value, reason } => "invalid "@ + field + " `"@ + value
            + "`: "@ + reason,
        ErrorView::Config(text) => "configuration error: "@ + text,
        ErrorView::Detection(text) => "project detection failed: "@ + text,
        ErrorView::Transport { stage, message, details } => "transport failed during "@ + stage
            + ": "@ + message + details,
        ErrorView::RemoteCommand { stage, exit, stdout, stderr } => "remote command failed during "@
            + stage + ": exit "@ + signed_decimal(exit) + "\nstdout:\n"@ + stdout + "\nstderr:\n"@
            + stderr,
        ErrorView::LocalCommand { stage, exit, stdout, stderr } => "local command failed during "@
            + stage + ": exit "@ + signed_decimal(exit) + "\nstdout:\n"@ + stdout + "\nstderr:\n"@
            + stderr,
        ErrorView::Deployment { stage, message, previous_release } => "deployment failed during "@
            + stage + ": "@ + message + "; previous release: "@ + previous_release,
        ErrorView::Io(text) => "I/O error: "@ + text,
        ErrorView::Serialization(text) => "serialization error: "@ + text,
    }
}

impl CiaoError {
    /// The same error once more.
    pub fn copy(&self) -> (r: CiaoError)
        ensures
            r == *self,
    {
        match self {
            CiaoError::InvalidIdentifier { field, value, reason } => CiaoError::InvalidIdentifier {
                field,
                value: value.clone(),
                reason,
            },
            CiaoError::Config(text) => CiaoError::Config(text.clone()),
            CiaoError::Detection(text) => CiaoError::Detection(text.clone()),
            CiaoError::Transport { stage, message, details } => CiaoError::Transport {
                stage: stage.clone(),
                message: message.clone(),
                details: details.clone(),
            },
            CiaoError::RemoteCommand { stage, exit, stdout, stderr } => CiaoError::RemoteCommand {
                stage: stage.clone(),
                exit: *exit,
                stdout: stdout.clone(),
                stderr: stderr.clone(),
            },
            CiaoError::LocalCommand { stage, exit, stdout, stderr } => CiaoError::LocalCommand {
                stage: stage.clone(),
                exit: *exit,
                stdout: stdout.clone(),
                stderr: stderr.clone(),
            },
            CiaoError::Deployment { stage, message, previous_release } => CiaoError::Deployment {
                stage: stage.clone(),
                message: message.clone(),
                previous_release: previous_release.clone(),
            },
            CiaoError::Io(text) => CiaoError::Io(text.clone()),
            CiaoError::Serialization(text) => CiaoError::Serialization(text.clone()),
        }
    }

    /// The text that this error shows to the user.
    pub fn message(&self) -> (r: String)
        ensures
            r@ == error_message(self@),
    {
        match self {
            CiaoError::InvalidIdentifier { field, value, reason } => "invalid ".to_owned().concat(
                field,
            ).concat(" `").concat(value).concat("`: ").concat(reason),
            CiaoError::Config(text) => "configuration error: ".to_owned().concat(text),
            CiaoError::Detection(text) => "project detection failed: ".to_owned().concat(text),
            CiaoError::Transport { stage, message, details } => "transport failed during "
                .to_owned().concat(stage).concat(": ").concat(message).concat(details),
            CiaoError::RemoteCommand { stage, exit, stdout, stderr } =>
                "remote command failed during ".to_owned().concat(stage).concat(": exit ").concat(
                signed_decimal_text(*exit).as_str(),
            ).concat("\nstdout:\n").concat(stdout).concat("\nstderr:\n").concat(stderr),
            CiaoError::LocalCommand { stage, exit, stdout, stderr } =>
                "local command failed during ".to_owned().concat(stage).concat(": exit ").concat(
                signed_decimal_text(*exit).as_str(),
            ).concat("\nstdout:\n").concat(stdout).concat("\nstderr:\n").concat(stderr),
            CiaoError::Deployment { stage, message, previous_release } =>
                "deployment failed during ".to_owned().concat(stage).concat(": ").concat(
                message,
            ).concat("; previous release: ").concat(previous_release),
            CiaoError::Io(text) => "I/O error: ".to_owned().concat(text),
            CiaoError::Serialization(text) => "serialization error: ".to_owned().concat(text),
        }
    }
}

/// The outcome of an operation without a value.
pub open spec fn unit_outcome(r: Result<(), CiaoError>) -> Result<(), ErrorView> {
    match r {
        Ok(_) => Ok(()),
        Err(error) => Err(error@),
    }
}

/// The outcome of an operation that gives a text.
pub open spec fn text_outcome(r: Result<String, CiaoError>) -> Result<Seq<char>, ErrorView> {
    match r {
        Ok(text) => Ok(text@),
        Err(error) => Err(error@),
    }
}

/// The outcome of an operation that may give a text.
pub open spec fn opt_text_outcome(r: Result<Option<String>, CiaoError>) -> Result<
    Option<Seq<char>>,
    ErrorView,
> {
    match r {
        Ok(Some(text)) => Ok(Some(text@)),
        Ok(None) => Ok(None),
        Err(error) => Err(error@),
    }
}

/// The outcome of an operation that gives a value compared as it is.
pub open spec fn plain_outcome<T>(r: Result<T, CiaoError>) -> Result<T, ErrorView> {
    match r {
        Ok(value) => Ok(value),
        Err(error) => Err(error@),
    }
}

/// A configuration error with the given text.
pub fn config_error(text: &str) -> (r: CiaoError)
    ensures
        r@ == ErrorView::Config(text@),
{
    CiaoError::Config(text.to_owned())
}

} // verus!
