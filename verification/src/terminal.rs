use vstd::prelude::*;

use crate::config::Machine;
use crate::error::{OrchestratorError, Result};
use crate::ssh::target_of;
use crate::text::{concat, dec, decimal, push_str, push_string, string_views};
use crate::tmux::{valid_session_name, validate_session_name};

verus! {

/// The terminal emulators that sessions can be opened in.
#[derive(Debug, Clone, Copy, PartialEq, Eq, Structural)]
pub enum Terminal {
    WindowsTerminal,
    Cmd,
    GnomeTerminal,
    Konsole,
    Xterm,
}

/// The arguments of the interactive `ssh` call that attaches to `session` on
/// `m`, creating it if it does not exist.
pub open spec fn attach_args(m: Machine, session: Seq<char>) -> Seq<Seq<char>> {
    seq![
        "-i"@,
        m.ssh_key@,
        "-p"@,
        dec(m.ssh_port as nat),
        "-o"@,
        "StrictHostKeyChecking=accept-new"@,
        m.ssh_user@ + "@"@ + m.host@,
        "-t"@,
        "tmux new-session -A -s "@ + session,
    ]
}

/// The `ssh` arguments that attach to `session` on `m` (see `attach_args`).
pub fn ssh_attach_args(m: &Machine, session: &str) -> (args: Vec<String>)
    ensures
        string_views(args@) == attach_args(*m, session@),
{
    let mut v: Vec<String> = Vec::new();
    push_str(&mut v, "-i");
    push_str(&mut v, m.ssh_key.as_str());
    push_str(&mut v, "-p");
    push_string(&mut v, decimal(m.ssh_port as u64));
    push_str(&mut v, "-o");
    push_str(&mut v, "StrictHostKeyChecking=accept-new");
    push_string(&mut v, target_of(m));
    push_str(&mut v, "-t");
    push_string(&mut v, concat("tmux new-session -A -s ", session));
    assert(string_views(v@) =~= attach_args(*m, session@));
    v
}

/// The first candidate whose program `installed` reports present, as observed.
pub fn detect_terminal_in<F: Fn(&str) -> bool>(
    candidates: &[(&str, Terminal)],
    installed: &F,
) -> (r: Result<Terminal>)
    requires
        forall|i: int| 0 <= i < candidates@.len() ==> installed.requires((candidates@[i].0,)),
    ensures
        r matches Ok(t) ==> exists|i: int|
            0 <= i < candidates@.len() && candidates@[i].1 == t && installed.ensures(
                (candidates@[i].0,),
                true,
            ) && forall|j: int| 0 <= j < i ==> installed.ensures((candidates@[j].0,), false),
        r is Err ==> r == Err::<Terminal, OrchestratorError>(OrchestratorError::TerminalMissing)
            && forall|j: int| 0 <= j < candidates@.len() ==> installed.ensures((candidates@[j].0,), false),
{
    let n = candidates.len();
    let mut i: usize = 0;
    while i < n
        invariant
            n == candidates@.len(),
            i <= n,
            forall|k: int| 0 <= k < candidates@.len() ==> installed.requires((candidates@[k].0,)),
            forall|j: int| 0 <= j < i ==> installed.ensures((candidates@[j].0,), false),
        decreases n - i,
    {
        let (bin, t) = candidates[i];
        let found = installed(bin);
        if found {
            return Ok(t);
        }
        i = i + 1;
    }
    Err(OrchestratorError::TerminalMissing)
}

/// The terminals tried on Linux, in order.
pub fn linux_candidates() -> (v: Vec<(&'static str, Terminal)>)
    ensures
        v@.len() == 3,
        v@[0].0@ == "gnome-terminal"@ && v@[0].1 == Terminal::GnomeTerminal,
        v@[1].0@ == "konsole"@ && v@[1].1 == Terminal::Konsole,
        v@[2].0@ == "xterm"@ && v@[2].1 == Terminal::Xterm,
{
    let mut v = Vec::new();
    v.push(("gnome-terminal", Terminal::GnomeTerminal));
    v.push(("konsole", Terminal::Konsole));
    v.push(("xterm", Terminal::Xterm));
    v
}

/// The terminals tried on Windows, in order.
pub fn windows_candidates() -> (v: Vec<(&'static str, Terminal)>)
    ensures
        v@.len() == 2,
        v@[0].0@ == "wt.exe"@ && v@[0].1 == Terminal::WindowsTerminal,
        v@[1].0@ == "cmd.exe"@ && v@[1].1 == Terminal::Cmd,
{
    let mut v = Vec::new();
    v.push(("wt.exe", Terminal::WindowsTerminal));
    v.push(("cmd.exe", Terminal::Cmd));
    v
}

/// The program and the leading arguments that open `term` with the window
/// title `title` and run `ssh` in it.
pub open spec fn launcher(term: Terminal, title: Seq<char>) -> (Seq<char>, Seq<Seq<char>>) {
    match term {
        Terminal::WindowsTerminal => ("wt.exe"@, seq!["new-tab"@, "--title"@, title, "ssh"@]),
        Terminal::Cmd => ("cmd.exe"@, seq!["/c"@, "start"@, title, "ssh"@]),
        Terminal::GnomeTerminal => ("gnome-terminal"@, seq!["--title"@, title, "--"@, "ssh"@]),
        Terminal::Konsole => ("konsole"@, seq!["-p"@, "tabtitle="@ + title, "-e"@, "ssh"@]),
        Terminal::Xterm => ("xterm"@, seq!["-T"@, title, "-e"@, "ssh"@]),
    }
}

/// The program and arguments that open `term` attached to `session` on `m`,
/// with the title `name:session`; the session name must be valid.
pub fn attach_command(term: Terminal, m: &Machine, session: &str) -> (r: Result<
    (String, Vec<String>),
>)
    ensures
        valid_session_name(session@) ==> (r matches Ok((prog, args)) && {
            let l = launcher(term, m.name@ + ":"@ + session@);
            &&& prog@ == l.0
            &&& string_views(args@) == l.1 + attach_args(*m, session@)
        }),
        !valid_session_name(session@) ==> (r matches Err(OrchestratorError::InvalidSessionName(t))
            && t@ == session@),
{
    match validate_session_name(session) {
        Ok(()) => {},
        Err(e) => return Err(e),
    }
    let mut title = concat(m.name.as_str(), ":");
    title.append(session);
    let ghost tv = title@;
    let mut args: Vec<String> = Vec::new();
    let prog = match term {
        Terminal::WindowsTerminal => {
            push_str(&mut args, "new-tab");
            push_str(&mut args, "--title");
            push_string(&mut args, title);
            push_str(&mut args, "ssh");
            String::from_str("wt.exe")
        },
        Terminal::Cmd => {
            push_str(&mut args, "/c");
            push_str(&mut args, "start");
            push_string(&mut args, title);
            push_str(&mut args, "ssh");
            String::from_str("cmd.exe")
        },
        Terminal::GnomeTerminal => {
            push_str(&mut args, "--title");
            push_string(&mut args, title);
            push_str(&mut args, "--");
            push_str(&mut args, "ssh");
            String::from_str("gnome-terminal")
        },
        Terminal::Konsole => {
            push_str(&mut args, "-p");
            push_string(&mut args, concat("tabtitle=", title.as_str()));
            push_str(&mut args, "-e");
            push_str(&mut args, "ssh");
            String::from_str("konsole")
        },
        Terminal::Xterm => {
            push_str(&mut args, "-T");
            push_string(&mut args, title);
            push_str(&mut args, "-e");
            push_str(&mut args, "ssh");
            String::from_str("xterm")
        },
    };
    assert(string_views(args@) =~= launcher(term, tv).1);
    let ghost head = args@;
    let mut rest = ssh_attach_args(m, session);
    let ghost tail = rest@;
    args.append(&mut rest);
    assert(string_views(args@) =~= string_views(head) + string_views(tail));
    Ok((prog, args))
}

/// The error for a terminal program that could not be started: a missing
/// program means no terminal, anything else is an I/O error with its text.
pub fn launch_failure(not_found: bool, detail: String) -> (e: OrchestratorError)
    ensures
        not_found ==> e == OrchestratorError::TerminalMissing,
        !not_found ==> e == OrchestratorError::Io(detail),
{
    if not_found {
        OrchestratorError::TerminalMissing
    } else {
        OrchestratorError::Io(detail)
    }
}

} // verus!
