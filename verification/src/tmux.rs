use vstd::prelude::*;

use crate::error::{OrchestratorError, Result};
use crate::ssh::{classified, classify_failure, CmdOutput};
use crate::text::{
    lemma_dec_digits, lemma_split_acc_append, lemma_trim_digits, law_parse_u32_of_dec, sep_free,
    split_acc, chars_of, concat, contains, contains_str, dec, lines, parse_u32, parse_u32_range, push_char,
    push_decimal, split2, split_lines, split_on, string_of, trim, trim_bounds,
};

verus! {

/// Who drives a session.
#[derive(Debug, Clone, Copy, PartialEq, Eq, Structural, Default)]
pub enum Controller {
    Human,
    Agent,
    #[default]
    Unknown,
}

/// A tmux session of a machine.
#[derive(Debug, Clone, PartialEq, Eq)]
pub struct SessionInfo {
    pub name: String,
    pub windows: u32,
    pub attached: bool,
    pub controller: Controller,
}

/// A session as a mathematical value.
pub struct SessionView {
    pub name: Seq<char>,
    pub windows: u32,
    pub attached: bool,
    pub controller: Controller,
}

impl View for SessionInfo {
    type V = SessionView;

    open spec fn view(&self) -> SessionView {
        SessionView {
            name: self.name@,
            windows: self.windows,
            attached: self.attached,
            controller: self.controller,
        }
    }
}

pub open spec fn session_char(c: char) -> bool {
    ||| ('a' <= c && c <= 'z')
    ||| ('A' <= c && c <= 'Z')
    ||| ('0' <= c && c <= '9')
    ||| c == '_'
    ||| c == '-'
}

/// Session names are 1 to 64 ASCII letters, digits, `_` or `-`; they are
/// pasted into remote shell commands, so nothing else may pass.
pub open spec fn valid_session_name(s: Seq<char>) -> bool {
    &&& 0 < s.len() <= 64
    &&& forall|i: int| 0 <= i < s.len() ==> session_char(#[trigger] s[i])
}

/// Accepts exactly the valid session names (see `valid_session_name`).
pub fn validate_session_name(name: &str) -> (r: Result<()>)
    ensures
        valid_session_name(name@) ==> r == Ok::<(), OrchestratorError>(()),
        !valid_session_name(name@) ==> (r matches Err(OrchestratorError::InvalidSessionName(t))
            && t@ == name@),
{
    let v = chars_of(name);
    let mut ok = v.len() > 0 && v.len() <= 64;
    let mut i: usize = 0;
    while i < v.len()
        invariant
            v@ == name@,
            i <= v@.len(),
            ok == (0 < v@.len() <= 64 && forall|j: int| 0 <= j < i ==> session_char(#[trigger] v@[j])),
        decreases v@.len() - i,
    {
        let c = v[i];
        let good = ('a' <= c && c <= 'z') || ('A' <= c && c <= 'Z') || ('0' <= c && c <= '9') || c
            == '_' || c == '-';
        if !good {
            ok = false;
        }
        i = i + 1;
    }
    if ok {
        Ok(())
    } else {
        Err(OrchestratorError::InvalidSessionName(String::from_str(name)))
    }
}

/// A session name is accepted exactly when it has 1 to 64 characters, each an
/// ASCII letter, an ASCII digit, `_` or `-`: wherever digits stand, and
/// whatever comes first.
pub proof fn law_session_name_accepted(s: Seq<char>)
    ensures
        valid_session_name(s) <==> (1 <= s.len() <= 64 && forall|i: int|
            0 <= i < s.len() ==> {
                let c = #[trigger] s[i];
                ||| 'a' <= c <= 'z'
                ||| 'A' <= c <= 'Z'
                ||| '0' <= c <= '9'
                ||| c == '_'
                ||| c == '-'
            }),
{
}

/// Names made of digits alone, such as the `0`, `1`, ... that tmux gives
/// sessions created without a name, are valid session names.
pub proof fn law_numeric_session_names(s: Seq<char>)
    requires
        1 <= s.len() <= 64,
        forall|i: int| 0 <= i < s.len() ==> '0' <= #[trigger] s[i] <= '9',
    ensures
        valid_session_name(s),
{
}

/// Replacing any character of a valid session name by an ASCII letter, digit,
/// `_` or `-` gives a valid session name again.
pub proof fn law_session_name_any_position(s: Seq<char>, i: int, c: char)
    requires
        valid_session_name(s),
        0 <= i < s.len(),
        ('a' <= c <= 'z') || ('A' <= c <= 'Z') || ('0' <= c <= '9') || c == '_' || c == '-',
    ensures
        valid_session_name(s.update(i, c)),
{
    let t = s.update(i, c);
    assert forall|j: int| 0 <= j < t.len() implies session_char(#[trigger] t[j]) by {
        if j != i {
            assert(t[j] == s[j]);
        }
    }
}

/// The session that one line of `tmux ls -F "name|windows|attached"` stands
/// for: the name (trimmed) must be non-empty and the two counts (trimmed) must
/// parse; further fields are ignored.
pub open spec fn ls_line(l: Seq<char>) -> Option<SessionView> {
    let parts = split2(l, '|', '|');
    let name = trim(parts[0]);
    if name.len() == 0 || parts.len() < 3 {
        None
    } else {
        match (parse_u32(trim(parts[1])), parse_u32(trim(parts[2]))) {
            (Some(w), Some(a)) => Some(
                SessionView { name, windows: w, attached: a > 0, controller: Controller::Unknown },
            ),
            _ => None,
        }
    }
}

/// The sessions of the lines that stand for one, in order.
pub open spec fn ls_sessions(ls: Seq<Seq<char>>) -> Seq<SessionView>
    decreases ls.len(),
{
    if ls.len() == 0 {
        seq![]
    } else {
        let prev = ls_sessions(ls.drop_last());
        match ls_line(ls.last()) {
            Some(x) => prev.push(x),
            None => prev,
        }
    }
}

pub open spec fn session_views(v: Seq<SessionInfo>) -> Seq<SessionView> {
    v.map_values(|x: SessionInfo| x@)
}

fn parse_ls_line(l: &Vec<char>) -> (r: Option<SessionInfo>)
    ensures
        match r {
            Some(x) => ls_line(l@) == Some(x@),
            None => ls_line(l@) is None,
        },
{
    let parts = split_on(l, '|', '|');
    let ghost sp = split2(l@, '|', '|');
    assert(sp.len() >= 1);
    assert(crate::text::views(parts@).len() == parts@.len());
    assert(parts@.len() >= 1);
    assert(crate::text::views(parts@)[0] == parts@[0]@);
    let p0 = &parts[0];
    let (a, b) = trim_bounds(p0.as_slice(), 0, p0.len());
    assert(p0@.subrange(0, p0@.len() as int) =~= p0@);
    if a == b || parts.len() < 3 {
        return None;
    }
    let p1 = &parts[1];
    let p2 = &parts[2];
    assert(p1@.subrange(0, p1@.len() as int) =~= p1@);
    assert(p2@.subrange(0, p2@.len() as int) =~= p2@);
    assert(crate::text::views(parts@)[1] == parts@[1]@);
    assert(crate::text::views(parts@)[2] == parts@[2]@);
    let (a1, b1) = trim_bounds(p1.as_slice(), 0, p1.len());
    let w = parse_u32_range(p1.as_slice(), a1, b1);
    let (a2, b2) = trim_bounds(p2.as_slice(), 0, p2.len());
    let t = parse_u32_range(p2.as_slice(), a2, b2);
    match (w, t) {
        (Some(w), Some(t)) => Some(
            SessionInfo {
                name: string_of(p0.as_slice(), a, b),
                windows: w,
                attached: t > 0,
                controller: Controller::Unknown,
            },
        ),
        _ => None,
    }
}

/// The sessions listed in the output of `tmux ls -F "name|windows|attached"`;
/// lines that do not stand for a session are skipped.
pub fn parse_ls(stdout: &str) -> (r: Vec<SessionInfo>)
    ensures
        session_views(r@) == ls_sessions(lines(stdout@)),
{
    let v = chars_of(stdout);
    let ls = split_lines(&v);
    let ghost lv = lines(stdout@);
    let mut out: Vec<SessionInfo> = Vec::new();
    let mut i: usize = 0;
    while i < ls.len()
        invariant
            crate::text::views(ls@) == lv,
            i <= ls@.len(),
            session_views(out@) == ls_sessions(lv.take(i as int)),
        decreases ls@.len() - i,
    {
        assert(lv.take(i + 1).drop_last() =~= lv.take(i as int));
        assert(lv.take(i + 1).last() == ls@[i as int]@);
        match parse_ls_line(&ls[i]) {
            Some(x) => {
                assert(session_views(out@.push(x)) =~= session_views(out@).push(x@));
                out.push(x);
            },
            None => {},
        }
        i = i + 1;
    }
    assert(lv.take(ls@.len() as int) =~= lv);
    out
}

/// `'s'` quoted for a POSIX shell: inside single quotes, each `'` becomes `'\''`.
pub open spec fn quote_body(s: Seq<char>) -> Seq<char>
    decreases s.len(),
{
    if s.len() == 0 {
        seq![]
    } else {
        quote_body(s.drop_last()) + if s.last() == '\'' {
            seq!['\'', '\\', '\'', '\'']
        } else {
            seq![s.last()]
        }
    }
}

pub open spec fn shell_quoted(s: Seq<char>) -> Seq<char> {
    seq!['\''] + quote_body(s) + seq!['\'']
}

/// The characters that a POSIX shell reads as themselves when they stand
/// outside quotes and are not escaped. Any other one, such as a blank, `|`,
/// `;`, `&`, `<`, `>`, `(`, `$`, a backquote, `"`, `*`, `?`, `[`, `#`, `~`,
/// `=` or a newline, may end the word, start another command, redirect, or
/// be expanded.
pub open spec fn sh_plain(c: char) -> bool {
    ||| ('a' <= c && c <= 'z')
    ||| ('A' <= c && c <= 'Z')
    ||| ('0' <= c && c <= '9')
    ||| c == '_' || c == '-' || c == '.' || c == '/' || c == ',' || c == ':' || c == '@' || c == '+'
}

/// How a POSIX shell reads a single word made of single-quoted parts,
/// backslash escapes and plain characters, after reading `s`: the text so
/// far, whether a quote is open, whether a backslash waits for its character;
/// `None` once a character outside quotes would not be read as itself.
pub open spec fn sh_read_acc(s: Seq<char>) -> Option<(Seq<char>, bool, bool)>
    decreases s.len(),
{
    if s.len() == 0 {
        Some((seq![], false, false))
    } else {
        match sh_read_acc(s.drop_last()) {
            None => None,
            Some((out, quoted, escaped)) => {
                let c = s.last();
                if quoted {
                    if c == '\'' {
                        Some((out, false, false))
                    } else {
                        Some((out.push(c), true, false))
                    }
                } else if escaped {
                    Some((out.push(c), false, false))
                } else if c == '\'' {
                    Some((out, true, false))
                } else if c == '\\' {
                    Some((out, false, true))
                } else if sh_plain(c) {
                    Some((out.push(c), false, false))
                } else {
                    None
                }
            },
        }
    }
}

/// The text a shell reads from `w`, if `w` is one complete word that the
/// shell reads without splitting, redirecting or expanding anything.
pub open spec fn sh_read(w: Seq<char>) -> Option<Seq<char>> {
    match sh_read_acc(w) {
        Some((out, false, false)) => Some(out),
        _ => None,
    }
}

proof fn lemma_sh_read_quoted_body(s: Seq<char>)
    ensures
        sh_read_acc(seq!['\''] + quote_body(s)) == Some((s, true, false)),
    decreases s.len(),
{
    if s.len() == 0 {
        assert(seq!['\''] + quote_body(s) =~= seq!['\'']);
        assert(seq!['\''].drop_last() =~= Seq::<char>::empty());
        assert(s =~= Seq::<char>::empty());
        let e = Seq::<char>::empty();
        assert(sh_read_acc(e) == Some((e, false, false)));
        assert(seq!['\''].last() == '\'');
        assert(sh_read_acc(seq!['\'']) == Some((e, true, false)));
    } else {
        let init = s.drop_last();
        lemma_sh_read_quoted_body(init);
        let p = seq!['\''] + quote_body(init);
        let c = s.last();
        if c == '\'' {
            let p1 = p.push('\'');
            let p2 = p1.push('\\');
            let p3 = p2.push('\'');
            let p4 = p3.push('\'');
            assert(p1.drop_last() =~= p);
            assert(p2.drop_last() =~= p1);
            assert(p3.drop_last() =~= p2);
            assert(p4.drop_last() =~= p3);
            assert(sh_read_acc(p1) == Some((init, false, false)));
            assert(sh_read_acc(p2) == Some((init, false, true)));
            assert(sh_read_acc(p3) == Some((init.push('\''), false, false)));
            assert(sh_read_acc(p4) == Some((init.push('\''), true, false)));
            assert(quote_body(s) == quote_body(init) + seq!['\'', '\\', '\'', '\'']);
            assert(seq!['\''] + quote_body(s) =~= p4);
            assert(init.push('\'') =~= s);
        } else {
            let p1 = p.push(c);
            assert(p1.drop_last() =~= p);
            assert(sh_read_acc(p1) == Some((init.push(c), true, false)));
            assert(quote_body(s) == quote_body(init) + seq![c]);
            assert(seq!['\''] + quote_body(s) =~= p1);
            assert(init.push(c) =~= s);
        }
    }
}

/// A shell reads back exactly `s` from the word `shell_single_quote(s)`, as
/// one word in which nothing is split, redirected or expanded, whatever `s`
/// holds, so `send_keys` hands the keys to tmux as they were given.
pub proof fn law_shell_quote_roundtrip(s: Seq<char>)
    ensures
        sh_read(shell_quoted(s)) == Some(s),
{
    lemma_sh_read_quoted_body(s);
    let w = shell_quoted(s);
    assert(w.drop_last() =~= seq!['\''] + quote_body(s));
}

/// `s` as one single-quoted shell word.
pub fn shell_single_quote(s: &str) -> (r: String)
    ensures
        r@ == shell_quoted(s@),
{
    let v = chars_of(s);
    let mut r = String::new();
    push_char(&mut r, '\'');
    let mut i: usize = 0;
    while i < v.len()
        invariant
            v@ == s@,
            i <= v@.len(),
            r@ == seq!['\''] + quote_body(v@.take(i as int)),
        decreases v@.len() - i,
    {
        assert(v@.take(i + 1).drop_last() =~= v@.take(i as int));
        if v[i] == '\'' {
            push_char(&mut r, '\'');
            push_char(&mut r, '\\');
            push_char(&mut r, '\'');
            push_char(&mut r, '\'');
        } else {
            push_char(&mut r, v[i]);
        }
        i = i + 1;
        assert(r@ =~= seq!['\''] + quote_body(v@.take(i as int)));
    }
    push_char(&mut r, '\'');
    assert(v@.take(v@.len() as int) =~= v@);
    assert(r@ =~= shell_quoted(s@));
    r
}

/// Success when the remote command exited 0; otherwise the error its exit
/// code and error output stand for.
pub fn check_exit(out: &CmdOutput) -> (r: Result<()>)
    ensures
        out.code == 0 ==> r == Ok::<(), OrchestratorError>(()),
        out.code != 0 ==> (r matches Err(e) && classified(out.code, out.stderr@, e)),
{
    if out.code == 0 {
        Ok(())
    } else {
        Err(classify_failure(out.code, out.stderr.as_str()))
    }
}

/// The command that checks that a machine answers and has tmux.
pub fn handshake_command() -> (c: String)
    ensures
        c@ == "tmux -V"@,
{
    String::from_str("tmux -V")
}

/// The command that lists sessions as `name|windows|attached` lines.
pub fn list_sessions_command() -> (c: String)
    ensures
        c@ == "tmux ls -F \"#{session_name}|#{session_windows}|#{session_attached}\""@,
{
    String::from_str("tmux ls -F \"#{session_name}|#{session_windows}|#{session_attached}\"")
}

/// The sessions that the output of the list command stands for: the parsed
/// lines on success; no sessions when tmux has no server (exit 1 and `no
/// server running` or `error connecting to` on the error output); otherwise
/// the error the failure stands for.
pub fn list_sessions_result(out: &CmdOutput) -> (r: Result<Vec<SessionInfo>>)
    ensures
        out.code == 0 ==> (r matches Ok(v) && session_views(v@) == ls_sessions(lines(out.stdout@))),
        out.code == 1 && (contains(out.stderr@, "no server running"@) || contains(
            out.stderr@,
            "error connecting to"@,
        )) ==> (r matches Ok(v) && v@.len() == 0),
        out.code != 0 && !(out.code == 1 && (contains(out.stderr@, "no server running"@)
            || contains(out.stderr@, "error connecting to"@))) ==> (r matches Err(e) && classified(
            out.code,
            out.stderr@,
            e,
        )),
{
    if out.code == 0 {
        return Ok(parse_ls(out.stdout.as_str()));
    }
    let err = chars_of(out.stderr.as_str());
    if out.code == 1 && contains_str(err.as_slice(), "no server running") {
        return Ok(Vec::new());
    }
    if out.code == 1 && contains_str(err.as_slice(), "error connecting to") {
        return Ok(Vec::new());
    }
    Err(classify_failure(out.code, out.stderr.as_str()))
}

/// `prefix` followed by a validated session name.
fn named_command(prefix: &str, name: &str) -> (r: Result<String>)
    ensures
        valid_session_name(name@) ==> (r matches Ok(c) && c@ == prefix@ + name@),
        !valid_session_name(name@) ==> (r matches Err(OrchestratorError::InvalidSessionName(t))
            && t@ == name@),
{
    match validate_session_name(name) {
        Ok(()) => Ok(concat(prefix, name)),
        Err(e) => Err(e),
    }
}

/// The command that creates the detached session `name`.
pub fn create_session_command(name: &str) -> (r: Result<String>)
    ensures
        valid_session_name(name@) ==> (r matches Ok(c) && c@ == "tmux new-session -d -s "@ + name@),
        !valid_session_name(name@) ==> (r matches Err(OrchestratorError::InvalidSessionName(t))
            && t@ == name@),
{
    named_command("tmux new-session -d -s ", name)
}

/// The command that ends the session `name`.
pub fn kill_session_command(name: &str) -> (r: Result<String>)
    ensures
        valid_session_name(name@) ==> (r matches Ok(c) && c@ == "tmux kill-session -t "@ + name@),
        !valid_session_name(name@) ==> (r matches Err(OrchestratorError::InvalidSessionName(t))
            && t@ == name@),
{
    named_command("tmux kill-session -t ", name)
}

/// The command that prints the last `lines` lines of the pane of `name`.
pub fn capture_pane_command(name: &str, lines: u32) -> (r: Result<String>)
    ensures
        valid_session_name(name@) ==> (r matches Ok(c) && c@ == "tmux capture-pane -p -t "@
            + name@ + " -S -"@ + dec(lines as nat)),
        !valid_session_name(name@) ==> (r matches Err(OrchestratorError::InvalidSessionName(t))
            && t@ == name@),
{
    match named_command("tmux capture-pane -p -t ", name) {
        Ok(mut c) => {
            c.append(" -S -");
            push_decimal(&mut c, lines as u64);
            Ok(c)
        },
        Err(e) => Err(e),
    }
}

/// The command that types `keys` followed by Enter into the session `name`;
/// `keys` travels as one single-quoted shell word.
pub fn send_keys_command(name: &str, keys: &str) -> (r: Result<String>)
    ensures
        valid_session_name(name@) ==> (r matches Ok(c) && c@ == "tmux send-keys -t "@ + name@
            + " "@ + shell_quoted(keys@) + " Enter"@),
        !valid_session_name(name@) ==> (r matches Err(OrchestratorError::InvalidSessionName(t))
            && t@ == name@),
{
    match named_command("tmux send-keys -t ", name) {
        Ok(mut c) => {
            c.append(" ");
            let q = shell_single_quote(keys);
            c.append(q.as_str());
            c.append(" Enter");
            Ok(c)
        },
        Err(e) => Err(e),
    }
}

/// The pane text that a capture command gave: its output when it exited 0,
/// otherwise the error the failure stands for.
pub fn capture_pane_result(out: CmdOutput) -> (r: Result<String>)
    ensures
        out.code == 0 ==> r == Ok::<String, OrchestratorError>(out.stdout),
        out.code != 0 ==> (r matches Err(e) && classified(out.code, out.stderr@, e)),
{
    match check_exit(&out) {
        Ok(()) => Ok(out.stdout),
        Err(e) => Err(e),
    }
}


// ---------------------------------------------------------------------------
// Laws of the session list
// ---------------------------------------------------------------------------

/// The line that `tmux ls -F "#{session_name}|#{session_windows}|#{session_attached}"`
/// prints for a session.
pub open spec fn ls_line_of(name: Seq<char>, windows: u32, attached: u32) -> Seq<char> {
    name + seq!['|'] + dec(windows as nat) + seq!['|'] + dec(attached as nat)
}

/// A name that tmux prints as it is and that reads back unchanged: non-empty,
/// no `|`, no line break, no whitespace at either end.
pub open spec fn listable_name(name: Seq<char>) -> bool {
    &&& name.len() > 0
    &&& trim(name) == name
    &&& sep_free(name, '|', '|')
    &&& sep_free(name, '\n', '\n')
}

proof fn lemma_acc_sep(s: Seq<char>, c: char, a: char, b: char)
    requires
        c == a || c == b,
    ensures
        split_acc(s + seq![c], a, b) == (split_acc(s, a, b).0.push(split_acc(s, a, b).1), Seq::<char>::empty()),
{
    assert((s + seq![c]).drop_last() =~= s);
}

proof fn lemma_digits_sep_free(n: nat, c: char)
    requires
        !crate::text::is_digit(c),
    ensures
        sep_free(dec(n), c, c),
{
    lemma_dec_digits(n);
}

/// Reading the line tmux prints for a session gives the session back.
pub proof fn law_ls_line_roundtrip(name: Seq<char>, windows: u32, attached: u32)
    requires
        listable_name(name),
    ensures
        ls_line(ls_line_of(name, windows, attached)) == Some(
            SessionView {
                name,
                windows,
                attached: attached > 0,
                controller: Controller::Unknown,
            },
        ),
{
    let d1 = dec(windows as nat);
    let d2 = dec(attached as nat);
    lemma_digits_sep_free(windows as nat, '|');
    lemma_digits_sep_free(attached as nat, '|');
    let e = Seq::<char>::empty();
    lemma_split_acc_append(e, name, '|', '|');
    assert(e + name =~= name);
    assert(split_acc(e, '|', '|') == (Seq::<Seq<char>>::empty(), e));
    assert(e + name =~= name);
    let s1 = name + seq!['|'];
    lemma_acc_sep(name, '|', '|', '|');
    let s2 = s1 + d1;
    lemma_split_acc_append(s1, d1, '|', '|');
    assert(e + d1 =~= d1);
    let s3 = s2 + seq!['|'];
    lemma_acc_sep(s2, '|', '|', '|');
    let s4 = s3 + d2;
    lemma_split_acc_append(s3, d2, '|', '|');
    assert(e + d2 =~= d2);
    assert(s4 == ls_line_of(name, windows, attached));
    let parts = split2(s4, '|', '|');
    assert(parts =~= seq![name, d1, d2]);
    lemma_dec_digits(windows as nat);
    lemma_dec_digits(attached as nat);
    lemma_trim_digits(d1);
    lemma_trim_digits(d2);
    law_parse_u32_of_dec(windows);
    law_parse_u32_of_dec(attached);
}

/// What tmux prints for a list of sessions: one line per session, each ended by `\n`.
pub open spec fn ls_output(ss: Seq<(Seq<char>, u32, u32)>) -> Seq<char>
    decreases ss.len(),
{
    if ss.len() == 0 {
        seq![]
    } else {
        ls_output(ss.drop_last()) + ls_line_of(ss.last().0, ss.last().1, ss.last().2) + seq!['\n']
    }
}

pub open spec fn ls_views(ss: Seq<(Seq<char>, u32, u32)>) -> Seq<SessionView> {
    ss.map_values(
        |x: (Seq<char>, u32, u32)|
            SessionView { name: x.0, windows: x.1, attached: x.2 > 0, controller: Controller::Unknown },
    )
}

proof fn lemma_ls_output_acc(ss: Seq<(Seq<char>, u32, u32)>)
    requires
        forall|i: int| 0 <= i < ss.len() ==> listable_name(#[trigger] ss[i].0),
    ensures
        split_acc(ls_output(ss), '\n', '\n') == (
            ss.map_values(|x: (Seq<char>, u32, u32)| ls_line_of(x.0, x.1, x.2)),
            Seq::<char>::empty(),
        ),
    decreases ss.len(),
{
    if ss.len() == 0 {
        assert(ss.map_values(|x: (Seq<char>, u32, u32)| ls_line_of(x.0, x.1, x.2)) =~= Seq::<
            Seq<char>,
        >::empty());
    } else {
        let init = ss.drop_last();
        assert forall|i: int| 0 <= i < init.len() implies listable_name(#[trigger] init[i].0) by {
            assert(init[i] == ss[i]);
        }
        lemma_ls_output_acc(init);
        let x = ss.last();
        assert(listable_name(ss[ss.len() - 1].0));
        let l = ls_line_of(x.0, x.1, x.2);
        lemma_dec_digits(x.1 as nat);
        lemma_dec_digits(x.2 as nat);
        assert(sep_free(l, '\n', '\n')) by {
            lemma_digits_sep_free(x.1 as nat, '\n');
            lemma_digits_sep_free(x.2 as nat, '\n');
            assert forall|i: int| 0 <= i < l.len() implies l[i] != '\n' && l[i] != '\n' by {
                let n = x.0.len();
                let d1 = dec(x.1 as nat);
                if i < n {
                    assert(l[i] == x.0[i]);
                } else if i == n {
                } else if i < n + 1 + d1.len() {
                    assert(l[i] == d1[i - n - 1]);
                } else if i == n + 1 + d1.len() {
                } else {
                    assert(l[i] == dec(x.2 as nat)[i - n - 2 - d1.len()]);
                }
            }
        }
        let o = ls_output(init);
        lemma_split_acc_append(o, l, '\n', '\n');
        assert(Seq::<char>::empty() + l =~= l);
        lemma_acc_sep(o + l, '\n', '\n', '\n');
        assert(ls_output(ss) == o + l + seq!['\n']);
        assert(ss.map_values(|x: (Seq<char>, u32, u32)| ls_line_of(x.0, x.1, x.2)) =~= init.map_values(
            |x: (Seq<char>, u32, u32)| ls_line_of(x.0, x.1, x.2),
        ).push(l));
    }
}

proof fn lemma_ls_sessions_of_lines(ss: Seq<(Seq<char>, u32, u32)>)
    requires
        forall|i: int| 0 <= i < ss.len() ==> listable_name(#[trigger] ss[i].0),
    ensures
        ls_sessions(ss.map_values(|x: (Seq<char>, u32, u32)| ls_line_of(x.0, x.1, x.2))) == ls_views(ss),
    decreases ss.len(),
{
    let ls = ss.map_values(|x: (Seq<char>, u32, u32)| ls_line_of(x.0, x.1, x.2));
    if ss.len() == 0 {
        assert(ls_views(ss) =~= Seq::<SessionView>::empty());
    } else {
        let init = ss.drop_last();
        assert forall|i: int| 0 <= i < init.len() implies listable_name(#[trigger] init[i].0) by {
            assert(init[i] == ss[i]);
        }
        lemma_ls_sessions_of_lines(init);
        assert(ls.drop_last() =~= init.map_values(|x: (Seq<char>, u32, u32)| ls_line_of(x.0, x.1, x.2)));
        let x = ss.last();
        assert(listable_name(ss[ss.len() - 1].0));
        law_ls_line_roundtrip(x.0, x.1, x.2);
        assert(ls_views(ss) =~= ls_views(init).push(
            SessionView { name: x.0, windows: x.1, attached: x.2 > 0, controller: Controller::Unknown },
        ));
    }
}

/// Reading what tmux prints for a list of sessions gives the list back.
pub proof fn law_ls_roundtrip(ss: Seq<(Seq<char>, u32, u32)>)
    requires
        forall|i: int| 0 <= i < ss.len() ==> listable_name(#[trigger] ss[i].0),
    ensures
        ls_sessions(lines(ls_output(ss))) == ls_views(ss),
{
    lemma_ls_output_acc(ss);
    let ls = ss.map_values(|x: (Seq<char>, u32, u32)| ls_line_of(x.0, x.1, x.2));
    assert forall|i: int| 0 <= i < ls.len() implies crate::text::strip_cr(#[trigger] ls[i]) == ls[i] by {
        let x = ss[i];
        lemma_dec_digits(x.2 as nat);
        let d2 = dec(x.2 as nat);
        assert(ls[i].last() == d2.last());
        assert(crate::text::is_digit(d2[d2.len() - 1]));
    }
    assert(ls.map_values(|l: Seq<char>| crate::text::strip_cr(l)) =~= ls);
    lemma_ls_sessions_of_lines(ss);
}

} // verus!
