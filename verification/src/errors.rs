//! The failure taxonomy and the exit-code mapper.
//!
//! Every failure of one invocation is a value of [`Failure`]; the mapper
//! [`exit_code`] is a total function from failures to small positive process
//! exit codes, stable across invocations so that calling scripts can branch
//! on the outcome.  No failure maps to 0: success is only reached by falling
//! through every phase without error.

use vstd::prelude::*;
use vstd::string::StringExecFns;

verus! {

/// Why credential resolution failed.
#[derive(Clone, Copy, Debug, PartialEq, Eq, Structural)]
pub enum CredentialError {
    /// The input stream ended before a credential could be read.
    NoInput,
    /// The externally supplied value was not valid text.
    Encoding,
}

/// Every failure an invocation can end with, one variant per condition.
#[derive(Clone, Copy, Debug, PartialEq, Eq, Structural)]
pub enum Failure {
    /// The backing configuration document could not be loaded or parsed.
    ConfigLoad,
    /// The selector of a remote-session command is not in the registry.
    UnknownServer,
    /// The remote collaborator reported a non-authentication connect failure.
    ConnectTransport,
    /// The remote collaborator rejected the credential.
    ConnectAuth,
    /// A command execution failed for a generic reason.
    ExecFailed,
    /// A command was rejected as too long.
    CommandTooLong,
    /// Reading a line in the interactive loop failed.
    LoopInput,
    /// An add named a server that already exists.
    DuplicateServer,
    /// Persisting the registry failed.
    SaveFailed,
    /// A remove named a server that does not exist.
    RemoveUnknown,
    /// No credential could be resolved.
    Credential(CredentialError),
    /// An add named a server with a colon in its name.
    InvalidName,
}

/// The exit-code table: a total function from failures to positive codes.
pub open spec fn spec_exit_code(f: Failure) -> int {
    match f {
        Failure::ConfigLoad => 2,
        Failure::UnknownServer => 3,
        Failure::ConnectTransport => 10,
        Failure::ConnectAuth => 11,
        Failure::ExecFailed => 12,
        Failure::CommandTooLong => 13,
        Failure::LoopInput => 15,
        Failure::DuplicateServer => 20,
        Failure::SaveFailed => 21,
        Failure::RemoveUnknown => 22,
        Failure::Credential(_) => 23,
        Failure::InvalidName => 24,
    }
}

/// Maps a failure to its process exit code.  Total, and never 0: every
/// failure is distinguishable from success.
pub fn exit_code(f: &Failure) -> (c: i32)
    ensures
        c == spec_exit_code(*f),
        0 < c,
{
    match f {
        Failure::ConfigLoad => 2,
        Failure::UnknownServer => 3,
        Failure::ConnectTransport => 10,
        Failure::ConnectAuth => 11,
        Failure::ExecFailed => 12,
        Failure::CommandTooLong => 13,
        Failure::LoopInput => 15,
        Failure::DuplicateServer => 20,
        Failure::SaveFailed => 21,
        Failure::RemoveUnknown => 22,
        Failure::Credential(_) => 23,
        Failure::InvalidName => 24,
    }
}

/// The user-facing message of each failure.  `subject` is the server name,
/// address or command the message speaks about; variants with a fixed text
/// ignore it.
pub open spec fn spec_message(f: Failure, subject: Seq<char>) -> Seq<char> {
    match f {
        Failure::ConfigLoad => "Error while loading config"@,
        Failure::UnknownServer => "Server "@ + subject + " is not configured"@,
        Failure::ConnectTransport => "Could not connect to "@ + subject,
        Failure::ConnectAuth => "The server rejected our password"@,
        Failure::ExecFailed => "Could not execute command "@ + subject,
        Failure::CommandTooLong => "The given command is too long"@,
        Failure::LoopInput => "Could not read the next command"@,
        Failure::DuplicateServer => "Server "@ + subject + " already exists"@,
        Failure::SaveFailed => "Could not save the config file"@,
        Failure::RemoveUnknown => "Server "@ + subject + " does not exist"@,
        Failure::Credential(CredentialError::NoInput) => "Could not read password from stdin"@,
        Failure::Credential(CredentialError::Encoding) => "Password is not a valid utf-8 string"@,
        Failure::InvalidName => "Short names must not contain colons"@,
    }
}

/// Renders the user-facing message of a failure.
pub fn message(f: &Failure, subject: &str) -> (m: String)
    ensures
        m@ == spec_message(*f, subject@),
{
    match f {
        Failure::ConfigLoad => String::from_str("Error while loading config"),
        Failure::UnknownServer => {
            let mut m = String::from_str("Server ");
            m.append(subject);
            m.append(" is not configured");
            m
        },
        Failure::ConnectTransport => {
            let mut m = String::from_str("Could not connect to ");
            m.append(subject);
            m
        },
        Failure::ConnectAuth => String::from_str("The server rejected our password"),
        Failure::ExecFailed => {
            let mut m = String::from_str("Could not execute command ");
            m.append(subject);
            m
        },
        Failure::CommandTooLong => String::from_str("The given command is too long"),
        Failure::LoopInput => String::from_str("Could not read the next command"),
        Failure::DuplicateServer => {
            let mut m = String::from_str("Server ");
            m.append(subject);
            m.append(" already exists");
            m
        },
        Failure::SaveFailed => String::from_str("Could not save the config file"),
        Failure::RemoveUnknown => {
            let mut m = String::from_str("Server ");
            m.append(subject);
            m.append(" does not exist");
            m
        },
        Failure::Credential(CredentialError::NoInput) => String::from_str(
            "Could not read password from stdin",
        ),
        Failure::Credential(CredentialError::Encoding) => String::from_str(
            "Password is not a valid utf-8 string",
        ),
        Failure::InvalidName => String::from_str("Short names must not contain colons"),
    }
}

/// Law: an authentication rejection is reported distinctly from a transport
/// failure — different exit codes and different messages — whatever the
/// subject of the message is.
pub proof fn lemma_auth_distinct_from_transport(subject: Seq<char>)
    ensures
        spec_exit_code(Failure::ConnectAuth) != spec_exit_code(Failure::ConnectTransport),
        spec_message(Failure::ConnectAuth, subject) != spec_message(
            Failure::ConnectTransport,
            subject,
        ),
{
    reveal_strlit("The server rejected our password");
    reveal_strlit("Could not connect to ");
    assert(spec_message(Failure::ConnectAuth, subject)[0] == 'T');
    assert(spec_message(Failure::ConnectTransport, subject)[0] == 'C');
}

/// Law: a command rejected as too long is reported distinctly from a generic
/// execution failure.
pub proof fn lemma_too_long_distinct_from_exec(subject: Seq<char>)
    ensures
        spec_exit_code(Failure::CommandTooLong) != spec_exit_code(Failure::ExecFailed),
        spec_message(Failure::CommandTooLong, subject) != spec_message(
            Failure::ExecFailed,
            subject,
        ),
{
    reveal_strlit("The given command is too long");
    reveal_strlit("Could not execute command ");
    assert(spec_message(Failure::CommandTooLong, subject)[0] == 'T');
    assert(spec_message(Failure::ExecFailed, subject)[0] == 'C');
}

} // verus!
