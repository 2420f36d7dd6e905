use vstd::prelude::*;

use crate::config::Machine;
use crate::error::{OrchestratorError, Result};
use crate::text::{chars_of, concat, contains, contains_str, dec, decimal, lower, lowercase, push_str, push_string, string_from, string_views, trim, trimmed};

verus! {

/// What a remote command printed and how it exited.
#[derive(Debug, Clone, PartialEq, Eq)]
pub struct CmdOutput {
    pub code: i32,
    pub stdout: String,
    pub stderr: String,
}

/// Runs commands through the system's `ssh` client.
pub struct SystemSsh;

/// The arguments handed to `ssh` to run `cmd` on `m`: fixed options that make
/// it fail instead of prompting, then the target and the command.
pub open spec fn ssh_args(m: Machine, cmd: Seq<char>) -> Seq<Seq<char>> {
    seq![
        "-i"@,
        m.ssh_key@,
        "-p"@,
        dec(m.ssh_port as nat),
        "-o"@,
        "BatchMode=yes"@,
        "-o"@,
        "ConnectTimeout=5"@,
        "-o"@,
        "StrictHostKeyChecking=accept-new"@,
        m.ssh_user@ + "@"@ + m.host@,
        cmd,
    ]
}

/// `user@host`.
pub(crate) fn target_of(m: &Machine) -> (s: String)
    ensures
        s@ == m.ssh_user@ + "@"@ + m.host@,
{
    let mut s = concat(m.ssh_user.as_str(), "@");
    s.append(m.host.as_str());
    s
}

/// The arguments of the `ssh` call that runs `cmd` on `m`.
pub fn build_args(m: &Machine, cmd: &str) -> (args: Vec<String>)
    ensures
        string_views(args@) == ssh_args(*m, cmd@),
{
    let mut v: Vec<String> = Vec::new();
    push_str(&mut v, "-i");
    push_str(&mut v, m.ssh_key.as_str());
    push_str(&mut v, "-p");
    push_string(&mut v, decimal(m.ssh_port as u64));
    push_str(&mut v, "-o");
    push_str(&mut v, "BatchMode=yes");
    push_str(&mut v, "-o");
    push_str(&mut v, "ConnectTimeout=5");
    push_str(&mut v, "-o");
    push_str(&mut v, "StrictHostKeyChecking=accept-new");
    push_string(&mut v, target_of(m));
    push_str(&mut v, cmd);
    assert(string_views(v@) =~= ssh_args(*m, cmd@));
    v
}

/// The (lower-cased) error output tells of a rejected key or host key.
pub open spec fn says_auth_failed(s: Seq<char>) -> bool {
    ||| contains(s, "permission denied"@)
    ||| contains(s, "no such identity"@)
    ||| contains(s, "host key verification failed"@)
}

/// The (lower-cased) error output tells of a host that cannot be reached.
pub open spec fn says_unreachable(s: Seq<char>) -> bool {
    ||| contains(s, "connection timed out"@)
    ||| contains(s, "connection refused"@)
    ||| contains(s, "no route to host"@)
    ||| contains(s, "could not resolve"@)
    ||| contains(s, "network is unreachable"@)
}

/// The exit code or (lower-cased) error output tells of a missing `tmux`.
pub open spec fn says_tmux_missing(code: i32, s: Seq<char>) -> bool {
    ||| code == 127
    ||| contains(s, "command not found"@)
    ||| contains(s, "tmux: not found"@)
}

/// `e` is the error that a failed command with exit code `code` and error
/// output `stderr` stands for; the checks go in this order, and the error
/// output is compared without regard to ASCII case.
pub open spec fn classified(code: i32, stderr: Seq<char>, e: OrchestratorError) -> bool {
    let s = lower(stderr);
    if says_auth_failed(s) {
        e == OrchestratorError::AuthFailed
    } else if says_unreachable(s) {
        e == OrchestratorError::HostUnreachable
    } else if says_tmux_missing(code, s) {
        e == OrchestratorError::TmuxMissing
    } else {
        e matches OrchestratorError::Io(t) && t@ == trim(stderr)
    }
}

/// The error that a failed command stands for (see `classified`).
pub fn classify_failure(code: i32, stderr: &str) -> (e: OrchestratorError)
    ensures
        classified(code, stderr@, e),
{
    let raw = chars_of(stderr);
    let s = lowercase(&raw);
    let s = s.as_slice();
    if contains_str(s, "permission denied") || contains_str(s, "no such identity")
        || contains_str(s, "host key verification failed") {
        return OrchestratorError::AuthFailed;
    }
    if contains_str(s, "connection timed out") || contains_str(s, "connection refused")
        || contains_str(s, "no route to host") || contains_str(s, "could not resolve")
        || contains_str(s, "network is unreachable") {
        return OrchestratorError::HostUnreachable;
    }
    if code == 127 || contains_str(s, "command not found") || contains_str(s, "tmux: not found") {
        return OrchestratorError::TmuxMissing;
    }
    OrchestratorError::Io(string_from(&trimmed(&raw)))
}

/// How a run of the `ssh` client ended.
pub enum SshRun {
    /// It did not finish within the time allowed.
    TimedOut,
    /// The `ssh` program was not found.
    ClientMissing,
    /// It could not be started for another reason; the text of the failure.
    SpawnFailed(String),
    /// It exited; `code` is `None` when it was ended by a signal.
    Exited { code: Option<i32>, stdout: String, stderr: String },
}

/// The outcome of a run of `ssh`. A time-out means the host is unreachable;
/// exit code 255 is ssh's own failure (never the remote command's) and is
/// classified from the error output; any other exit is the remote command's
/// and is handed back as it is (a missing code reads as -1).
pub fn ssh_outcome(run: SshRun) -> (r: Result<CmdOutput>)
    ensures
        match run {
            SshRun::TimedOut => r == Err::<CmdOutput, OrchestratorError>(
                OrchestratorError::HostUnreachable,
            ),
            SshRun::ClientMissing => r == Err::<CmdOutput, OrchestratorError>(
                OrchestratorError::SshClientMissing,
            ),
            SshRun::SpawnFailed(t) => r == Err::<CmdOutput, OrchestratorError>(
                OrchestratorError::Io(t),
            ),
            SshRun::Exited { code, stdout, stderr } => {
                let c = match code {
                    Some(c) => c,
                    None => -1i32,
                };
                if c == 255 {
                    r matches Err(e) && classified(255, stderr@, e)
                } else {
                    r == Ok::<CmdOutput, OrchestratorError>(CmdOutput { code: c, stdout, stderr })
                }
            },
        },
{
    match run {
        SshRun::TimedOut => Err(OrchestratorError::HostUnreachable),
        SshRun::ClientMissing => Err(OrchestratorError::SshClientMissing),
        SshRun::SpawnFailed(t) => Err(OrchestratorError::Io(t)),
        SshRun::Exited { code, stdout, stderr } => {
            let c = match code {
                Some(c) => c,
                None => -1,
            };
            if c == 255 {
                Err(classify_failure(c, stderr.as_str()))
            } else {
                Ok(CmdOutput { code: c, stdout, stderr })
            }
        },
    }
}

} // verus!
