use vstd::prelude::*;

use crate::text::concat;

verus! {

/// Everything that can go wrong while talking to a machine.
#[derive(Debug, Clone, PartialEq, Eq)]
pub enum OrchestratorError {
    AuthFailed,
    HostUnreachable,
    WakeTimeout,
    TmuxMissing,
    SshClientMissing,
    TerminalMissing,
    InvalidSessionName(String),
    ConfigError(String),
    Io(String),
}

pub type Result<T> = std::result::Result<T, OrchestratorError>;

/// The human-readable text of each error.
pub open spec fn error_text(e: OrchestratorError) -> Seq<char> {
    match e {
        OrchestratorError::AuthFailed => "SSH authentication failed (key rejected or missing)"@,
        OrchestratorError::HostUnreachable => "host unreachable (timeout, refused or no route)"@,
        OrchestratorError::WakeTimeout => "machine did not come online after Wake-on-LAN"@,
        OrchestratorError::TmuxMissing => "tmux is not installed on the remote machine"@,
        OrchestratorError::SshClientMissing => "ssh client not found in PATH"@,
        OrchestratorError::TerminalMissing => "no supported terminal emulator found"@,
        OrchestratorError::InvalidSessionName(s) => "invalid session name: "@ + s@,
        OrchestratorError::ConfigError(s) => "config error: "@ + s@,
        OrchestratorError::Io(s) => "io error: "@ + s@,
    }
}

impl OrchestratorError {
    /// The message shown to a user for this error.
    pub fn message(&self) -> (r: String)
        ensures
            r@ == error_text(*self),
    {
        match self {
            OrchestratorError::AuthFailed => String::from_str(
                "SSH authentication failed (key rejected or missing)",
            ),
            OrchestratorError::HostUnreachable => String::from_str(
                "host unreachable (timeout, refused or no route)",
            ),
            OrchestratorError::WakeTimeout => String::from_str(
                "machine did not come online after Wake-on-LAN",
            ),
            OrchestratorError::TmuxMissing => String::from_str(
                "tmux is not installed on the remote machine",
            ),
            OrchestratorError::SshClientMissing => String::from_str("ssh client not found in PATH"),
            OrchestratorError::TerminalMissing => String::from_str(
                "no supported terminal emulator found",
            ),
            OrchestratorError::InvalidSessionName(s) => concat("invalid session name: ", s.as_str()),
            OrchestratorError::ConfigError(s) => concat("config error: ", s.as_str()),
            OrchestratorError::Io(s) => concat("io error: ", s.as_str()),
        }
    }
}

/// `std::io::Error`, carried through opaquely.
#[verifier::external_type_specification]
#[verifier::external_body]
pub struct ExIoError(std::io::Error);

/// The text of an I/O error (`ToString` on `std::io::Error`). Nothing is stated
/// of the text: for errors that come from the operating system it depends on
/// the platform's messages.
#[verifier::external_body]
fn io_error_text(e: &std::io::Error) -> String {
    e.to_string()
}

/// Converting an I/O error gives an `Io` error; its text is not modelled (see
/// `io_error_text`), so no exact result is claimed for `from`.
impl vstd::std_specs::convert::FromSpecImpl<std::io::Error> for OrchestratorError {
    open spec fn obeys_from_spec() -> bool {
        false
    }

    open spec fn from_spec(e: std::io::Error) -> Self {
        arbitrary()
    }
}

impl From<std::io::Error> for OrchestratorError {
    fn from(e: std::io::Error) -> (r: Self)
        ensures
            r is Io,
    {
        OrchestratorError::Io(io_error_text(&e))
    }
}

} // verus!
