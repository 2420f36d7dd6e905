use vstd::prelude::*;

use crate::config::MachineOs;
use crate::text::{
    lemma_split_acc_append, sep_free, split_acc, chars_of, contains, contains_str, lines, lower, lowercase, opt_view, push_char, split2,
    split_lines, split_on, split_words, starts_with, starts_with_str, string_from, trim, trimmed,
    upper, uppercase, views, words,
};
use crate::wol::mac_parts_ok;

verus! {

/// What probing an address found out.
#[derive(Debug, Clone, PartialEq, Eq, Default)]
pub struct DiscoveryResult {
    pub reachable: bool,
    /// Normalized as `AA:BB:CC:DD:EE:FF`.
    pub mac: Option<String>,
    pub os_hint: MachineOs,
    pub hostname_hint: Option<String>,
    pub ssh_banner: Option<String>,
}

/// The pieces joined with `:` between them.
pub open spec fn join_colon(ps: Seq<Seq<char>>) -> Seq<char>
    decreases ps.len(),
{
    if ps.len() == 0 {
        seq![]
    } else if ps.len() == 1 {
        ps[0]
    } else {
        join_colon(ps.drop_last()) + seq![':'] + ps.last()
    }
}

pub open spec fn upper_all(ps: Seq<Seq<char>>) -> Seq<Seq<char>> {
    ps.map_values(|p: Seq<char>| upper(p))
}

/// A MAC address in the form `AA:BB:CC:DD:EE:FF`: the text is trimmed, split
/// into six groups at `:` or `-`, each group must be valid (see
/// `mac_part_ok`), and the groups are upper-cased and joined with `:`.
pub open spec fn normalized_mac(raw: Seq<char>) -> Option<Seq<char>> {
    let ps = split2(trim(raw), ':', '-');
    if mac_parts_ok(ps) {
        Some(join_colon(upper_all(ps)))
    } else {
        None
    }
}

fn part_ok(p: &Vec<char>) -> (b: bool)
    ensures
        b == crate::wol::mac_part_ok(p@),
{
    p.len() == 2 && is_hex_char(p[0]) && is_hex_char(p[1])
}

fn is_hex_char(c: char) -> (b: bool)
    ensures
        b == crate::text::is_hex(c),
{
    ('0' <= c && c <= '9') || ('a' <= c && c <= 'f') || ('A' <= c && c <= 'F')
}

fn normalize_chars(raw: &Vec<char>) -> (r: Option<String>)
    ensures
        opt_view(r) == normalized_mac(raw@),
{
    let t = trimmed(raw);
    let parts = split_on(&t, ':', '-');
    let ghost ps = split2(trim(raw@), ':', '-');
    if parts.len() != 6 {
        return None;
    }
    let mut i: usize = 0;
    while i < 6
        invariant
            views(parts@) == ps,
            ps == split2(trim(raw@), ':', '-'),
            parts@.len() == 6,
            i <= 6,
            forall|j: int| 0 <= j < i ==> crate::wol::mac_part_ok(#[trigger] ps[j]),
        decreases 6 - i,
    {
        assert(views(parts@)[i as int] == parts@[i as int]@);
        if !part_ok(&parts[i]) {
            assert(!mac_parts_ok(ps));
            return None;
        }
        i = i + 1;
    }
    let ghost ups = upper_all(ps);
    let mut r = String::new();
    let mut k: usize = 0;
    while k < 6
        invariant
            views(parts@) == ps,
            parts@.len() == 6,
            ps.len() == 6,
            ups == upper_all(ps),
            k <= 6,
            r@ == join_colon(ups.take(k as int)),
        decreases 6 - k,
    {
        assert(views(parts@)[k as int] == parts@[k as int]@);
        let ghost before = r@;
        if k > 0 {
            push_char(&mut r, ':');
        }
        let u = uppercase(&parts[k]);
        let mut j: usize = 0;
        while j < u.len()
            invariant
                j <= u@.len(),
                r@ == (if k > 0 { before + seq![':'] } else { before }) + u@.take(j as int),
            decreases u@.len() - j,
        {
            push_char(&mut r, u[j]);
            j = j + 1;
            assert(u@.take(j as int) =~= u@.take(j - 1).push(u@[j - 1]));
        }
        assert(u@.take(u@.len() as int) =~= u@);
        assert(ups.take(k + 1).drop_last() =~= ups.take(k as int));
        assert(ups.take(k + 1).last() == ups[k as int]);
        assert(ups[k as int] == u@);
        if k == 0 {
            assert(ups.take(1) =~= seq![ups[0]]);
            assert(r@ =~= join_colon(ups.take(k + 1)));
        } else {
            assert(r@ =~= join_colon(ups.take(k + 1)));
        }
        k = k + 1;
    }
    assert(ups.take(6) =~= ups);
    Some(r)
}

/// `raw` as a MAC address in the form `AA:BB:CC:DD:EE:FF`, if it is one (see
/// `normalized_mac`).
pub fn normalize_mac(raw: &str) -> (r: Option<String>)
    ensures
        opt_view(r) == normalized_mac(raw@),
{
    normalize_chars(&chars_of(raw))
}

/// The first of the columns that is a MAC address, normalized.
pub open spec fn mac_in_cols(ws: Seq<Seq<char>>) -> Option<Seq<char>>
    decreases ws.len(),
{
    if ws.len() == 0 {
        None
    } else {
        match normalized_mac(ws[0]) {
            Some(m) => Some(m),
            None => mac_in_cols(ws.drop_first()),
        }
    }
}

/// The MAC address on a line of an ARP table whose first column is `ip`.
pub open spec fn line_mac(l: Seq<char>, ip: Seq<char>) -> Option<Seq<char>> {
    let ws = words(l);
    if ws.len() > 0 && ws[0] == ip {
        mac_in_cols(ws.drop_first())
    } else {
        None
    }
}

/// The MAC address of the first line of an ARP table that has one for `ip`.
pub open spec fn arp_mac(ls: Seq<Seq<char>>, ip: Seq<char>) -> Option<Seq<char>>
    decreases ls.len(),
{
    if ls.len() == 0 {
        None
    } else {
        match line_mac(ls[0], ip) {
            Some(m) => Some(m),
            None => arp_mac(ls.drop_first(), ip),
        }
    }
}

fn cols_mac(ws: &Vec<Vec<char>>, from: usize) -> (r: Option<String>)
    requires
        from <= ws@.len(),
    ensures
        opt_view(r) == mac_in_cols(views(ws@).skip(from as int)),
{
    let ghost all = views(ws@);
    let mut i = from;
    while i < ws.len()
        invariant
            from <= i <= ws@.len(),
            all == views(ws@),
            mac_in_cols(all.skip(from as int)) == mac_in_cols(all.skip(i as int)),
        decreases ws@.len() - i,
    {
        assert(all.skip(i as int).drop_first() =~= all.skip(i + 1));
        assert(all.skip(i as int)[0] == ws@[i as int]@);
        match normalize_chars(&ws[i]) {
            Some(m) => {
                return Some(m);
            },
            None => {},
        }
        i = i + 1;
    }
    assert(all.skip(i as int) =~= Seq::<Seq<char>>::empty());
    None
}

/// The MAC address that an ARP table (`arp -n` or `arp -a` output) gives for
/// `ip`: on the first line whose first column is exactly `ip`, the first
/// column that is a MAC address.
pub fn find_mac_for_ip(out: &str, ip: &str) -> (r: Option<String>)
    ensures
        opt_view(r) == arp_mac(lines(out@), ip@),
{
    let v = chars_of(out);
    let target = chars_of(ip);
    let ls = split_lines(&v);
    let ghost all = lines(out@);
    assert(all.skip(0) =~= all);
    let mut i: usize = 0;
    while i < ls.len()
        invariant
            views(ls@) == all,
            all == lines(out@),
            target@ == ip@,
            i <= ls@.len(),
            arp_mac(all, ip@) == arp_mac(all.skip(i as int), ip@),
        decreases ls@.len() - i,
    {
        assert(all.skip(i as int).drop_first() =~= all.skip(i + 1));
        assert(all.skip(i as int)[0] == ls@[i as int]@);
        let ws = split_words(&ls[i]);
        assert(views(ws@).len() == ws@.len());
        if ws.len() > 0 {
            assert(views(ws@)[0] == ws@[0]@);
            if crate::text::same_chars(ws[0].as_slice(), target.as_slice()) {
                let found = cols_mac(&ws, 1);
                assert(views(ws@).skip(1) =~= views(ws@).drop_first());
                assert(words(all.skip(i as int)[0]) == views(ws@));
                assert(views(ws@)[0] == ip@);
                match found {
                    Some(m) => {
                        assert(line_mac(all.skip(i as int)[0], ip@) == Some(m@));
                        assert(all.skip(i as int).len() > 0);
                        assert(arp_mac(all.skip(i as int), ip@) == Some(m@));
                        return Some(m);
                    },
                    None => {},
                }
            }
        }
        i = i + 1;
    }
    assert(all.skip(i as int) =~= Seq::<Seq<char>>::empty());
    None
}

/// The MAC address for `ip` in the output of `arp -n <ip>` (see `find_mac_for_ip`).
pub fn parse_arp_linux(out: &str, ip: &str) -> (r: Option<String>)
    ensures
        opt_view(r) == arp_mac(lines(out@), ip@),
{
    find_mac_for_ip(out, ip)
}

/// The MAC address for `ip` in the output of `arp -a <ip>` (see `find_mac_for_ip`).
pub fn parse_arp_windows(out: &str, ip: &str) -> (r: Option<String>)
    ensures
        opt_view(r) == arp_mac(lines(out@), ip@),
{
    find_mac_for_ip(out, ip)
}

/// The MAC address in the output of `ip neigh show <ip>`: the first word that
/// is one.
pub fn parse_ip_neigh(out: &str) -> (r: Option<String>)
    ensures
        opt_view(r) == mac_in_cols(words(out@)),
{
    let v = chars_of(out);
    let ws = split_words(&v);
    let r = cols_mac(&ws, 0);
    assert(views(ws@).skip(0) =~= views(ws@));
    r
}

/// The operating system that an SSH banner suggests (ASCII case ignored):
/// `windows` means Windows with WSL; `ubuntu`, `debian`, `fedora` or `arch`
/// mean Linux.
pub open spec fn banner_os(banner: Seq<char>) -> MachineOs {
    let b = lower(banner);
    if contains(b, "windows"@) {
        MachineOs::WindowsWsl
    } else if contains(b, "ubuntu"@) || contains(b, "debian"@) || contains(b, "fedora"@)
        || contains(b, "arch"@) {
        MachineOs::Linux
    } else {
        MachineOs::Unknown
    }
}

/// The operating system that an SSH banner suggests (see `banner_os`).
pub fn os_hint_from_banner(banner: &str) -> (os: MachineOs)
    ensures
        os == banner_os(banner@),
{
    let b = lowercase(&chars_of(banner));
    let b = b.as_slice();
    if contains_str(b, "windows") {
        MachineOs::WindowsWsl
    } else if contains_str(b, "ubuntu") || contains_str(b, "debian") || contains_str(b, "fedora")
        || contains_str(b, "arch") {
        MachineOs::Linux
    } else {
        MachineOs::Unknown
    }
}

/// `w` stands in `b` from position `k` on, ASCII case ignored in `b`.
pub open spec fn occurs_ignoring_case(b: Seq<char>, w: Seq<char>, k: int) -> bool {
    &&& 0 <= k
    &&& k + w.len() <= b.len()
    &&& forall|j: int| 0 <= j < w.len() ==> crate::text::lower_char(#[trigger] b[k + j]) == w[j]
}

proof fn lemma_occurs_lower(b: Seq<char>, w: Seq<char>, k: int)
    ensures
        occurs_ignoring_case(b, w, k) <==> crate::text::occurs_at(lower(b), w, k),
{
    let lb = lower(b);
    if occurs_ignoring_case(b, w, k) {
        assert forall|j: int| 0 <= j < w.len() implies #[trigger] lb.subrange(k, k + w.len())[j]
            == w[j] by {
            assert(crate::text::lower_char(b[k + j]) == w[j]);
        }
        assert(lb.subrange(k, k + w.len()) =~= w);
    }
    if crate::text::occurs_at(lb, w, k) {
        assert forall|j: int| 0 <= j < w.len() implies crate::text::lower_char(#[trigger] b[k + j])
            == w[j] by {
            assert(lb.subrange(k, k + w.len())[j] == lb[k + j]);
        }
    }
}

proof fn lemma_contains_ignoring_case(b: Seq<char>, w: Seq<char>)
    requires
        forall|m: int| !occurs_ignoring_case(b, w, m),
    ensures
        !contains(lower(b), w),
{
    if contains(lower(b), w) {
        let m = choose|m: int| crate::text::occurs_at(lower(b), w, m);
        lemma_occurs_lower(b, w, m);
    }
}

/// A banner that mentions `windows`, in any ASCII case, suggests Windows with WSL.
pub proof fn law_banner_windows(banner: Seq<char>, k: int)
    requires
        occurs_ignoring_case(banner, "windows"@, k),
    ensures
        banner_os(banner) == MachineOs::WindowsWsl,
{
    lemma_occurs_lower(banner, "windows"@, k);
}

/// A banner that mentions `ubuntu`, `debian`, `fedora` or `arch`, in any ASCII
/// case, and nowhere `windows`, suggests Linux.
pub proof fn law_banner_linux(banner: Seq<char>, word: Seq<char>, k: int)
    requires
        word == "ubuntu"@ || word == "debian"@ || word == "fedora"@ || word == "arch"@,
        occurs_ignoring_case(banner, word, k),
        forall|m: int| !occurs_ignoring_case(banner, "windows"@, m),
    ensures
        banner_os(banner) == MachineOs::Linux,
{
    lemma_occurs_lower(banner, word, k);
    lemma_contains_ignoring_case(banner, "windows"@);
}

/// A banner that mentions none of `windows`, `ubuntu`, `debian`, `fedora` and
/// `arch`, in any ASCII case, suggests no operating system.
pub proof fn law_banner_unknown(banner: Seq<char>)
    requires
        forall|m: int| !occurs_ignoring_case(banner, "windows"@, m),
        forall|m: int| !occurs_ignoring_case(banner, "ubuntu"@, m),
        forall|m: int| !occurs_ignoring_case(banner, "debian"@, m),
        forall|m: int| !occurs_ignoring_case(banner, "fedora"@, m),
        forall|m: int| !occurs_ignoring_case(banner, "arch"@, m),
    ensures
        banner_os(banner) == MachineOs::Unknown,
{
    lemma_contains_ignoring_case(banner, "windows"@);
    lemma_contains_ignoring_case(banner, "ubuntu"@);
    lemma_contains_ignoring_case(banner, "debian"@);
    lemma_contains_ignoring_case(banner, "fedora"@);
    lemma_contains_ignoring_case(banner, "arch"@);
}

/// The SSH banner in what a server sent first: its first line, trimmed, if
/// that starts with `SSH-`.
pub open spec fn banner_in(text: Seq<char>) -> Option<Seq<char>> {
    let ls = lines(text);
    if ls.len() == 0 {
        None
    } else if starts_with(trim(ls[0]), "SSH-"@) {
        Some(trim(ls[0]))
    } else {
        None
    }
}

/// The SSH banner in what a server sent first (see `banner_in`).
pub fn banner_from_text(text: &str) -> (r: Option<String>)
    ensures
        opt_view(r) == banner_in(text@),
{
    let v = chars_of(text);
    let ls = split_lines(&v);
    if ls.len() == 0 {
        return None;
    }
    assert(views(ls@)[0] == ls@[0]@);
    let first = trimmed(&ls[0]);
    if starts_with_str(first.as_slice(), "SSH-") {
        Some(string_from(&first))
    } else {
        None
    }
}

/// The host name that a reverse lookup of `ip` gave, unless it is just the
/// address itself.
pub fn hostname_hint(name: Option<String>, ip: &str) -> (r: Option<String>)
    ensures
        opt_view(r) == match opt_view(name) {
            Some(h) => if h == ip@ {
                None
            } else {
                Some(h)
            },
            None => None,
        },
{
    match name {
        Some(h) => {
            let same = crate::text::same_chars(chars_of(h.as_str()).as_slice(), chars_of(ip).as_slice());
            if same {
                None
            } else {
                Some(h)
            }
        },
        None => None,
    }
}

impl DiscoveryResult {
    /// What the probes of an address add up to: it is reachable when it
    /// answered a ping or sent an SSH banner, and the banner, if any, gives
    /// the operating system.
    pub fn from_probes(
        pinged: bool,
        mac: Option<String>,
        hostname: Option<String>,
        banner: Option<String>,
    ) -> (r: DiscoveryResult)
        ensures
            r.reachable == (pinged || banner is Some),
            r.mac == mac,
            r.hostname_hint == hostname,
            r.ssh_banner == banner,
            r.os_hint == match banner {
                Some(b) => banner_os(b@),
                None => MachineOs::Unknown,
            },
    {
        let os_hint = match &banner {
            Some(b) => os_hint_from_banner(b.as_str()),
            None => MachineOs::Unknown,
        };
        DiscoveryResult {
            reachable: pinged || banner.is_some(),
            mac,
            os_hint,
            hostname_hint: hostname,
            ssh_banner: banner,
        }
    }
}


// ---------------------------------------------------------------------------
// Laws of MAC address normalization
// ---------------------------------------------------------------------------

proof fn lemma_split_join(ps: Seq<Seq<char>>)
    requires
        ps.len() > 0,
        forall|i: int| 0 <= i < ps.len() ==> sep_free(#[trigger] ps[i], ':', '-'),
    ensures
        split_acc(join_colon(ps), ':', '-') == (ps.drop_last(), ps.last()),
        split2(join_colon(ps), ':', '-') == ps,
    decreases ps.len(),
{
    if ps.len() == 1 {
        lemma_split_acc_append(seq![], ps[0], ':', '-');
        assert(Seq::<char>::empty() + ps[0] =~= ps[0]);
        assert(ps.drop_last() =~= seq![]);
    } else {
        let init = ps.drop_last();
        lemma_split_join(init);
        let j = join_colon(init);
        let jc = j + seq![':'];
        assert(jc.drop_last() =~= j);
        assert(split_acc(jc, ':', '-') == (init.drop_last().push(init.last()), Seq::<char>::empty()));
        assert(init.drop_last().push(init.last()) =~= init);
        lemma_split_acc_append(jc, ps.last(), ':', '-');
        assert(Seq::<char>::empty() + ps.last() =~= ps.last());
    }
    assert(split2(join_colon(ps), ':', '-') =~= ps.drop_last().push(ps.last()));
}

proof fn lemma_join_ends(ps: Seq<Seq<char>>)
    requires
        ps.len() > 0,
        forall|i: int| 0 <= i < ps.len() ==> (#[trigger] ps[i]).len() > 0,
    ensures
        join_colon(ps).len() > 0,
        join_colon(ps)[0] == ps[0][0],
        join_colon(ps).last() == ps.last().last(),
    decreases ps.len(),
{
    if ps.len() > 1 {
        lemma_join_ends(ps.drop_last());
    }
}

proof fn lemma_upper_part(p: Seq<char>)
    requires
        crate::wol::mac_part_ok(p),
    ensures
        crate::wol::mac_part_ok(upper(p)),
        upper(upper(p)) == upper(p),
        crate::wol::part_byte(upper(p)) == crate::wol::part_byte(p),
        sep_free(p, ':', '-'),
        sep_free(upper(p), ':', '-'),
        !crate::text::is_ws(upper(p)[0]),
        !crate::text::is_ws(upper(p)[1]),
{
    assert(upper(upper(p)) =~= upper(p));
}

/// A normalized MAC address normalizes to itself.
pub proof fn law_normalized_mac_is_canonical(raw: Seq<char>)
    requires
        normalized_mac(raw) is Some,
    ensures
        normalized_mac(normalized_mac(raw)->0) == normalized_mac(raw),
{
    let ps = split2(trim(raw), ':', '-');
    let us = upper_all(ps);
    assert forall|i: int| 0 <= i < 6 implies crate::wol::mac_part_ok(#[trigger] us[i])
        && sep_free(us[i], ':', '-') && us[i].len() > 0 && upper(us[i]) == us[i] by {
        assert(crate::wol::mac_part_ok(ps[i]));
        lemma_upper_part(ps[i]);
    }
    let n = join_colon(us);
    lemma_split_join(us);
    lemma_join_ends(us);
    lemma_upper_part(ps[0]);
    lemma_upper_part(ps[5]);
    assert(crate::text::trim_start(n) == n);
    assert(crate::text::trim_end(n) == n);
    assert(mac_parts_ok(us));
    assert(upper_all(us) =~= us);
}

/// A normalized MAC address stands for the same six bytes as the text it was
/// found in, so it can be handed to `parse_mac` and `magic_packet`.
pub proof fn law_normalized_mac_keeps_bytes(raw: Seq<char>)
    requires
        normalized_mac(raw) is Some,
    ensures
        crate::wol::mac_bytes(trim(raw)) is Some,
        crate::wol::mac_bytes(normalized_mac(raw)->0) == crate::wol::mac_bytes(trim(raw)),
{
    let ps = split2(trim(raw), ':', '-');
    let us = upper_all(ps);
    assert forall|i: int| 0 <= i < 6 implies crate::wol::mac_part_ok(#[trigger] us[i])
        && sep_free(us[i], ':', '-') && crate::wol::part_byte(us[i]) == crate::wol::part_byte(
        ps[i],
    ) by {
        assert(crate::wol::mac_part_ok(ps[i]));
        lemma_upper_part(ps[i]);
    }
    lemma_split_join(us);
    assert(mac_parts_ok(us));
    assert(Seq::new(6, |i: int| crate::wol::part_byte(us[i])) =~= Seq::new(
        6,
        |i: int| crate::wol::part_byte(ps[i]),
    ));
}

} // verus!
