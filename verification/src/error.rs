//! The failures of a diagnosis run and the messages shown for them.

use crate::text::{decimal, decimal_text};
use vstd::prelude::*;
use vstd::string::*;

verus! {

/// The classes into which the failures fall.
#[derive(Clone, Copy, Debug, PartialEq, Eq, Structural)]
pub enum ErrorKind {
    /// A required environment variable or execution context is absent.
    Environment,
    /// The shell is not one whose prompt can be probed.
    UnsupportedShell,
    /// A subprocess could not be spawned or ended with the wrong status.
    Process,
    /// Nothing was captured, so there is nothing to diagnose.
    EmptyCapture,
    /// The streaming endpoint sent a malformed or unexpected payload.
    Protocol,
    /// The remote endpoint answered with a failing HTTP status.
    RemoteService,
    /// The credential configuration is missing or cannot be read.
    Configuration,
}

/// A failure that ends the run.  None is retried.
#[derive(Debug, PartialEq, Eq)]
pub enum DiagnosisError {
    /// The environment does not name the shell.
    MissingShell,
    /// The process does not run inside a multiplexer session.
    MissingSession,
    /// The environment does not name the home directory.
    MissingHome,
    /// The shell, named here, is of no supported family.
    UnsupportedShell(String),
    /// The program, named here, could not be spawned.
    SpawnFailed(String),
    /// The program, named here, ended with a failing status.
    ExitFailure(String),
    /// The command to diagnose, named here, ended without failing.
    ExitSuccess(String),
    /// The prompt probe printed no line that holds a character.
    MissingPrompt,
    /// The capture holds no line.
    EmptyCapture,
    /// A stream message was not of the expected shape.
    Protocol,
    /// The stream broke without an HTTP status; the reason is kept.
    Transport(String),
    /// The endpoint answered with this HTTP status.
    RemoteService(u16),
    /// There is no configuration file at the path given here.
    MissingConfiguration(String),
    /// The configuration file does not hold a token.
    InvalidConfiguration,
}

/// The message for a failing HTTP status: a fixed one for each status that
/// the endpoint documents, whatever the response body, and a generic one that
/// holds the status for every other.
pub open spec fn status_message(status: u16) -> Seq<char> {
    if status == 401 {
        "Incorrect API key provided"@
    } else if status == 403 {
        "Country, region, or territory not supported"@
    } else if status == 429 {
        "Exceeded current quota or too many requests"@
    } else if status == 500 {
        "Server had an error while processing the request"@
    } else if status == 503 {
        "The engine is currently overloaded, try again later"@
    } else {
        "unexpected error: status "@ + decimal(status as nat)
    }
}

/// Writes the message for a failing HTTP status.
pub fn status_text(status: u16) -> (text: String)
    ensures
        text@ == status_message(status),
{
    if status == 401 {
        String::from_str("Incorrect API key provided")
    } else if status == 403 {
        String::from_str("Country, region, or territory not supported")
    } else if status == 429 {
        String::from_str("Exceeded current quota or too many requests")
    } else if status == 500 {
        String::from_str("Server had an error while processing the request")
    } else if status == 503 {
        String::from_str("The engine is currently overloaded, try again later")
    } else {
        let mut text = String::from_str("unexpected error: status ");
        text.append(decimal_text(status as u64).as_str());
        text
    }
}

fn quoted(before: &str, name: &str, after: &str) -> (text: String)
    ensures
        text@ == before@ + name@ + after@,
{
    let mut text = String::from_str(before);
    text.append(name);
    text.append(after);
    text
}

impl DiagnosisError {
    /// The class of the failure.
    pub open spec fn kind_spec(self) -> ErrorKind {
        match self {
            DiagnosisError::MissingShell => ErrorKind::Environment,
            DiagnosisError::MissingSession => ErrorKind::Environment,
            DiagnosisError::MissingHome => ErrorKind::Environment,
            DiagnosisError::UnsupportedShell(_) => ErrorKind::UnsupportedShell,
            DiagnosisError::SpawnFailed(_) => ErrorKind::Process,
            DiagnosisError::ExitFailure(_) => ErrorKind::Process,
            DiagnosisError::ExitSuccess(_) => ErrorKind::Process,
            DiagnosisError::MissingPrompt => ErrorKind::Process,
            DiagnosisError::EmptyCapture => ErrorKind::EmptyCapture,
            DiagnosisError::Protocol => ErrorKind::Protocol,
            DiagnosisError::Transport(_) => ErrorKind::Protocol,
            DiagnosisError::RemoteService(_) => ErrorKind::RemoteService,
            DiagnosisError::MissingConfiguration(_) => ErrorKind::Configuration,
            DiagnosisError::InvalidConfiguration => ErrorKind::Configuration,
        }
    }

    /// The one message shown for the failure.
    pub open spec fn message_spec(self) -> Seq<char> {
        match self {
            DiagnosisError::MissingShell => "couldn't get the current shell from environment variable `SHELL`"@,
            DiagnosisError::MissingSession => "process must run inside TMUX"@,
            DiagnosisError::MissingHome => "`$HOME` env variable is not set."@,
            DiagnosisError::UnsupportedShell(shell) => "unsupported shell to get prompt from `"@
                + shell@ + "`"@,
            DiagnosisError::SpawnFailed(program) => "couldn't spawn process `"@ + program@ + "`"@,
            DiagnosisError::ExitFailure(program) => "process `"@ + program@
                + "` exited with error status code"@,
            DiagnosisError::ExitSuccess(program) => "process `"@ + program@
                + "` didn't exit with error status code, aborting"@,
            DiagnosisError::MissingPrompt => "couldn't get last line in terminal prompt output"@,
            DiagnosisError::EmptyCapture => "couldn't capture anything from the terminal, is SHELL env variable set correctly?"@,
            DiagnosisError::Protocol => "unexpected message in the diagnosis stream"@,
            DiagnosisError::Transport(reason) => "unexpected error response: "@ + reason@,
            DiagnosisError::RemoteService(status) => status_message(status),
            DiagnosisError::MissingConfiguration(path) => "couldn't find configuration file at `"@
                + path@ + "`"@,
            DiagnosisError::InvalidConfiguration => "configuration file holds no token"@,
        }
    }

    /// The class of the failure.
    pub fn kind(&self) -> (kind: ErrorKind)
        ensures
            kind == self.kind_spec(),
    {
        match self {
            DiagnosisError::MissingShell => ErrorKind::Environment,
            DiagnosisError::MissingSession => ErrorKind::Environment,
            DiagnosisError::MissingHome => ErrorKind::Environment,
            DiagnosisError::UnsupportedShell(_) => ErrorKind::UnsupportedShell,
            DiagnosisError::SpawnFailed(_) => ErrorKind::Process,
            DiagnosisError::ExitFailure(_) => ErrorKind::Process,
            DiagnosisError::ExitSuccess(_) => ErrorKind::Process,
            DiagnosisError::MissingPrompt => ErrorKind::Process,
            DiagnosisError::EmptyCapture => ErrorKind::EmptyCapture,
            DiagnosisError::Protocol => ErrorKind::Protocol,
            DiagnosisError::Transport(_) => ErrorKind::Protocol,
            DiagnosisError::RemoteService(_) => ErrorKind::RemoteService,
            DiagnosisError::MissingConfiguration(_) => ErrorKind::Configuration,
            DiagnosisError::InvalidConfiguration => ErrorKind::Configuration,
        }
    }

    /// Writes the one message shown for the failure.
    pub fn message(&self) -> (text: String)
        ensures
            text@ == self.message_spec(),
    {
        match self {
            DiagnosisError::MissingShell => String::from_str(
                "couldn't get the current shell from environment variable `SHELL`",
            ),
            DiagnosisError::MissingSession => String::from_str("process must run inside TMUX"),
            DiagnosisError::MissingHome => String::from_str("`$HOME` env variable is not set."),
            DiagnosisError::UnsupportedShell(shell) => quoted(
                "unsupported shell to get prompt from `",
                shell.as_str(),
                "`",
            ),
            DiagnosisError::SpawnFailed(program) => quoted(
                "couldn't spawn process `",
                program.as_str(),
                "`",
            ),
            DiagnosisError::ExitFailure(program) => quoted(
                "process `",
                program.as_str(),
                "` exited with error status code",
            ),
            DiagnosisError::ExitSuccess(program) => quoted(
                "process `",
                program.as_str(),
                "` didn't exit with error status code, aborting",
            ),
            DiagnosisError::MissingPrompt => String::from_str(
                "couldn't get last line in terminal prompt output",
            ),
            DiagnosisError::EmptyCapture => String::from_str(
                "couldn't capture anything from the terminal, is SHELL env variable set correctly?",
            ),
            DiagnosisError::Protocol => String::from_str(
                "unexpected message in the diagnosis stream",
            ),
            DiagnosisError::Transport(reason) => {
                let mut text = String::from_str("unexpected error response: ");
                text.append(reason.as_str());
                text
            },
            DiagnosisError::RemoteService(status) => status_text(*status),
            DiagnosisError::MissingConfiguration(path) => quoted(
                "couldn't find configuration file at `",
                path.as_str(),
                "`",
            ),
            DiagnosisError::InvalidConfiguration => String::from_str(
                "configuration file holds no token",
            ),
        }
    }
}

} // verus!
