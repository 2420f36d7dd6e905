use vstd::prelude::*;

use crate::config::{first_named, has_named, Config, Machine, MachineOs};
use crate::error::{error_text, Result};
use crate::text::{chars_of, concat, dec, decimal, push_char, same_chars};
use crate::tmux::SessionInfo;

verus! {

/// The text of the error for a machine that is not registered.
pub open spec fn not_found_text(name: Seq<char>) -> Seq<char> {
    "machine `"@ + name + "` not found (see `torch machines list`)"@
}

/// The registered machine called `name`, or the message that says there is none.
pub fn find_machine<'a>(cfg: &'a Config, name: &str) -> (r: std::result::Result<&'a Machine, String>)
    ensures
        has_named(cfg.machine@, name@) ==> (r matches Ok(m) && exists|i: int|
            first_named(cfg.machine@, name@, i) && *m == cfg.machine@[i]),
        !has_named(cfg.machine@, name@) ==> (r matches Err(t) && t@ == not_found_text(name@)),
{
    match cfg.find(name) {
        Some(m) => Ok(m),
        None => {
            let mut t = concat("machine `", name);
            t.append("` not found (see `torch machines list`)");
            Err(t)
        },
    }
}

/// The text of the error for an operating system name that is not known.
pub open spec fn unknown_os_text(s: Seq<char>) -> Seq<char> {
    "unknown os `"@ + s + "` (linux|windows_wsl|unknown)"@
}

fn is_word(s: &str, w: &str) -> (b: bool)
    ensures
        b == (s@ == w@),
{
    same_chars(chars_of(s).as_slice(), chars_of(w).as_slice())
}

/// The operating system named on the command line: `linux`, `windows_wsl`
/// (or `wsl`), or `unknown`.
pub fn parse_os(s: &str) -> (r: std::result::Result<MachineOs, String>)
    ensures
        s@ == "linux"@ ==> r == Ok::<MachineOs, String>(MachineOs::Linux),
        s@ == "windows_wsl"@ || s@ == "wsl"@ ==> r == Ok::<MachineOs, String>(MachineOs::WindowsWsl),
        s@ == "unknown"@ ==> r == Ok::<MachineOs, String>(MachineOs::Unknown),
        s@ != "linux"@ && s@ != "windows_wsl"@ && s@ != "wsl"@ && s@ != "unknown"@ ==> (r matches Err(
            t,
        ) && t@ == unknown_os_text(s@)),
{
    proof {
        reveal_strlit("linux");
        reveal_strlit("windows_wsl");
        reveal_strlit("wsl");
        reveal_strlit("unknown");
        assert("linux"@.len() == 5);
        assert("windows_wsl"@.len() == 11);
        assert("wsl"@.len() == 3);
        assert("unknown"@.len() == 7);
    }
    if is_word(s, "linux") {
        Ok(MachineOs::Linux)
    } else if is_word(s, "windows_wsl") || is_word(s, "wsl") {
        Ok(MachineOs::WindowsWsl)
    } else if is_word(s, "unknown") {
        Ok(MachineOs::Unknown)
    } else {
        let mut t = concat("unknown os `", s);
        t.append("` (linux|windows_wsl|unknown)");
        Err(t)
    }
}

/// How a machine is listed after a handshake: `online`; or, when it failed,
/// `sleeping? (why)` for a machine that could be woken and `unreachable (why)`
/// for one that could not.
pub open spec fn status_text(handshake: Result<()>, has_mac: bool) -> Seq<char> {
    match handshake {
        Ok(_) => "online"@,
        Err(e) => if has_mac {
            "sleeping? ("@ + error_text(e) + ")"@
        } else {
            "unreachable ("@ + error_text(e) + ")"@
        },
    }
}

/// How a machine is listed after a handshake (see `status_text`).
pub fn status_label(handshake: &Result<()>, has_mac: bool) -> (s: String)
    ensures
        s@ == status_text(*handshake, has_mac),
{
    match handshake {
        Ok(()) => String::from_str("online"),
        Err(e) => {
            let why = e.message();
            let mut s = if has_mac {
                String::from_str("sleeping? (")
            } else {
                String::from_str("unreachable (")
            };
            s.append(why.as_str());
            s.append(")");
            s
        },
    }
}


/// `s` left-aligned in a field of `width` characters (`format!("{:<width$}")`).
pub open spec fn padded(s: Seq<char>, width: nat) -> Seq<char> {
    if s.len() < width {
        s + Seq::new((width - s.len()) as nat, |i: int| ' ')
    } else {
        s
    }
}

fn push_padded(out: &mut String, s: &str, width: usize)
    ensures
        final(out)@ == old(out)@ + padded(s@, width as nat),
{
    out.append(s);
    let n = s.unicode_len();
    let mut k = n;
    while k < width
        invariant
            n == s@.len(),
            n <= k <= width || (k == n && n >= width),
            out@ == old(out)@ + s@ + Seq::new((k - n) as nat, |i: int| ' '),
        decreases width - k,
    {
        push_char(out, ' ');
        k = k + 1;
        assert(out@ =~= old(out)@ + s@ + Seq::new((k - n) as nat, |i: int| ' '));
    }
    if n >= width {
        assert(out@ =~= old(out)@ + s@);
    } else {
        assert(out@ =~= old(out)@ + padded(s@, width as nat));
    }
}

/// The line that lists a machine with its status.
pub open spec fn machine_line_text(m: Machine, status: Seq<char>) -> Seq<char> {
    padded(m.name@, 12) + " "@ + padded(m.host@, 16) + " "@ + padded(dec(m.ssh_port as nat), 6)
        + " "@ + padded(m.ssh_user@, 12) + " mac="@ + padded(
        match m.mac {
            Some(mac) => mac@,
            None => "-"@,
        },
        17,
    ) + " "@ + status
}

/// The line that lists a machine with its status (see `machine_line_text`).
pub fn machine_line(m: &Machine, status: &str) -> (s: String)
    ensures
        s@ == machine_line_text(*m, status@),
{
    let mut s = String::new();
    push_padded(&mut s, m.name.as_str(), 12);
    s.append(" ");
    push_padded(&mut s, m.host.as_str(), 16);
    s.append(" ");
    let port = decimal(m.ssh_port as u64);
    push_padded(&mut s, port.as_str(), 6);
    s.append(" ");
    push_padded(&mut s, m.ssh_user.as_str(), 12);
    s.append(" mac=");
    match &m.mac {
        Some(mac) => push_padded(&mut s, mac.as_str(), 17),
        None => push_padded(&mut s, "-", 17),
    }
    s.append(" ");
    s.append(status);
    assert(s@ =~= machine_line_text(*m, status@));
    s
}

/// The line that lists a session.
pub open spec fn session_line_text(x: SessionInfo) -> Seq<char> {
    padded(x.name@, 20) + " windows="@ + padded(dec(x.windows as nat), 3) + " "@ + if x.attached {
        "attached"@
    } else {
        "detached"@
    }
}

/// The line that lists a session (see `session_line_text`).
pub fn session_line(x: &SessionInfo) -> (s: String)
    ensures
        s@ == session_line_text(*x),
{
    let mut s = String::new();
    push_padded(&mut s, x.name.as_str(), 20);
    s.append(" windows=");
    let w = decimal(x.windows as u64);
    push_padded(&mut s, w.as_str(), 3);
    s.append(" ");
    if x.attached {
        s.append("attached");
    } else {
        s.append("detached");
    }
    assert(s@ =~= session_line_text(*x));
    s
}


/// The lines that list the sessions of a machine: one per session, in order,
/// or the single line `no sessions` when there is none.
pub open spec fn session_lines_text(list: Seq<SessionInfo>) -> Seq<Seq<char>> {
    if list.len() == 0 {
        seq!["no sessions"@]
    } else {
        list.map_values(|x: SessionInfo| session_line_text(x))
    }
}

/// The lines that list the sessions of a machine (see `session_lines_text`).
pub fn session_lines(list: &Vec<SessionInfo>) -> (r: Vec<String>)
    ensures
        r@.len() == session_lines_text(list@).len(),
        forall|i: int| 0 <= i < r@.len() ==> #[trigger] r@[i]@ == session_lines_text(list@)[i],
{
    let mut r: Vec<String> = Vec::new();
    if list.len() == 0 {
        r.push(String::from_str("no sessions"));
        return r;
    }
    let mut i: usize = 0;
    while i < list.len()
        invariant
            i <= list@.len(),
            r@.len() == i,
            forall|j: int| 0 <= j < i ==> #[trigger] r@[j]@ == session_line_text(list@[j]),
        decreases list@.len() - i,
    {
        r.push(session_line(&list[i]));
        i = i + 1;
    }
    r
}

/// The line printed when no machine is registered in the file at `path`.
pub open spec fn no_machines_text(path: Seq<char>) -> Seq<char> {
    "no machines registered ("@ + path + ")"@
}

/// The line printed when no machine is registered (see `no_machines_text`).
pub fn no_machines_line(path: &str) -> (s: String)
    ensures
        s@ == no_machines_text(path@),
{
    let mut s = concat("no machines registered (", path);
    s.append(")");
    s
}

} // verus!
