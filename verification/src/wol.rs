use vstd::prelude::*;

use std::time::Duration;

use crate::config::Machine;
use crate::error::{OrchestratorError, Result};
use crate::text::{chars_of, concat, hex_val, is_hex, split2, split_on};

verus! {

/// How a machine looks from here.
#[derive(Debug, Clone, Copy, PartialEq, Eq, Structural)]
pub enum MachineStatus {
    Online,
    /// Unreachable, but it has a MAC address and could be woken.
    Sleeping,
    /// Unreachable and cannot be woken (no MAC address, or waking failed).
    Unreachable,
    Waking,
}

/// How long to wait after sending the magic packet, how long between
/// handshake attempts, and how many attempts to make.
#[derive(Debug, PartialEq, Eq)]
pub struct WakePolicy {
    pub initial_wait: Duration,
    pub retry_interval: Duration,
    pub max_retries: u32,
}

/// `Duration::from_secs(secs)`.
pub uninterp spec fn duration_of_secs(secs: u64) -> Duration;

/// `Duration::from_secs`; its result is named by `duration_of_secs`.
#[verifier::external_body]
fn secs(n: u64) -> (d: Duration)
    ensures
        d == duration_of_secs(n),
{
    Duration::from_secs(n)
}

impl Default for WakePolicy {
    /// 20 s before the first attempt, 15 s between attempts, 5 attempts.
    fn default() -> (p: Self)
        ensures
            p.initial_wait == duration_of_secs(20),
            p.retry_interval == duration_of_secs(15),
            p.max_retries == 5,
    {
        WakePolicy { initial_wait: secs(20), retry_interval: secs(15), max_retries: 5 }
    }
}

impl Clone for WakePolicy {
    fn clone(&self) -> (p: Self)
        ensures
            p == *self,
    {
        WakePolicy {
            initial_wait: self.initial_wait,
            retry_interval: self.retry_interval,
            max_retries: self.max_retries,
        }
    }
}

// ---------------------------------------------------------------------------
// MAC addresses and magic packets
// ---------------------------------------------------------------------------

/// One group of a MAC address: exactly two hex digits, either case.
pub open spec fn mac_part_ok(p: Seq<char>) -> bool {
    &&& p.len() == 2
    &&& is_hex(p[0])
    &&& is_hex(p[1])
}

/// Six groups, each of them valid.
pub open spec fn mac_parts_ok(ps: Seq<Seq<char>>) -> bool {
    &&& ps.len() == 6
    &&& forall|i: int| 0 <= i < 6 ==> mac_part_ok(#[trigger] ps[i])
}

/// The byte a valid group stands for.
pub open spec fn part_byte(p: Seq<char>) -> u8 {
    (hex_val(p[0]) * 16 + hex_val(p[1])) as u8
}

/// The six bytes of a MAC address written as six groups separated by `:` or
/// `-`, or `None` when it is not one.
pub open spec fn mac_bytes(s: Seq<char>) -> Option<Seq<u8>> {
    let ps = split2(s, ':', '-');
    if mac_parts_ok(ps) {
        Some(Seq::new(6, |i: int| part_byte(ps[i])))
    } else {
        None
    }
}

/// The text of the error for a MAC address that does not parse.
pub open spec fn invalid_mac_text(mac: Seq<char>) -> Seq<char> {
    "invalid MAC `"@ + mac + "`"@
}

fn hex_digit(c: char) -> (r: Option<u8>)
    ensures
        is_hex(c) ==> r == Some(hex_val(c) as u8),
        !is_hex(c) ==> r is None,
{
    if '0' <= c && c <= '9' {
        Some((c as u32 - '0' as u32) as u8)
    } else if 'a' <= c && c <= 'f' {
        Some((c as u32 - 'a' as u32 + 10) as u8)
    } else if 'A' <= c && c <= 'F' {
        Some((c as u32 - 'A' as u32 + 10) as u8)
    } else {
        None
    }
}

/// The byte of one group, if it is valid.
fn parse_part(p: &Vec<char>) -> (r: Option<u8>)
    ensures
        mac_part_ok(p@) ==> r == Some(part_byte(p@)),
        !mac_part_ok(p@) ==> r is None,
{
    if p.len() != 2 {
        return None;
    }
    let lo = match hex_digit(p[1]) {
        Some(d) => d,
        None => return None,
    };
    match hex_digit(p[0]) {
        Some(hi) => Some(hi * 16 + lo),
        None => None,
    }
}

/// The six bytes of `mac`, a MAC address written as six pairs of hex digits
/// separated by `:` or `-` (either case).
pub fn parse_mac(mac: &str) -> (r: Result<[u8; 6]>)
    ensures
        match mac_bytes(mac@) {
            Some(b) => r matches Ok(a) && a@ == b,
            None => r matches Err(OrchestratorError::ConfigError(t)) && t@ == invalid_mac_text(
                mac@,
            ),
        },
{
    let v = chars_of(mac);
    let parts = split_on(&v, ':', '-');
    let ghost ps = split2(mac@, ':', '-');
    assert(crate::text::views(parts@) == ps);
    if parts.len() != 6 {
        return Err(OrchestratorError::ConfigError(invalid_mac(mac)));
    }
    let mut out: [u8; 6] = [0u8; 6];
    let mut i: usize = 0;
    while i < 6
        invariant
            crate::text::views(parts@) == ps,
            ps == split2(mac@, ':', '-'),
            ps.len() == 6,
            parts@.len() == 6,
            i <= 6,
            forall|j: int| 0 <= j < i ==> mac_part_ok(#[trigger] ps[j]),
            forall|j: int| 0 <= j < i ==> out@[j] == part_byte(#[trigger] ps[j]),
        decreases 6 - i,
    {
        assert(crate::text::views(parts@)[i as int] == parts@[i as int]@);
        match parse_part(&parts[i]) {
            Some(b) => {
                out[i] = b;
            },
            None => {
                proof {
                    assert(!mac_part_ok(ps[i as int]));
                    assert(!mac_parts_ok(ps));
                    assert(mac_bytes(mac@) is None);
                }
                return Err(OrchestratorError::ConfigError(invalid_mac(mac)));
            },
        }
        i = i + 1;
    }
    assert(out@ =~= Seq::new(6, |j: int| part_byte(ps[j])));
    Ok(out)
}

fn invalid_mac(mac: &str) -> (t: String)
    ensures
        t@ == invalid_mac_text(mac@),
{
    let mut t = concat("invalid MAC `", mac);
    t.append("`");
    t
}

/// A Wake-on-LAN magic packet: six `0xFF` bytes, then the MAC address sixteen times.
pub open spec fn magic_seq(mac: Seq<u8>) -> Seq<u8> {
    Seq::new(102, |i: int| if i < 6 { 0xFFu8 } else { mac[(i - 6) % 6] })
}

/// The magic packet that wakes the machine with MAC address `mac`.
pub fn magic_packet(mac: &str) -> (r: Result<[u8; 102]>)
    ensures
        match mac_bytes(mac@) {
            Some(b) => r matches Ok(p) && p@ == magic_seq(b),
            None => r matches Err(OrchestratorError::ConfigError(t)) && t@ == invalid_mac_text(
                mac@,
            ),
        },
{
    let bytes = match parse_mac(mac) {
        Ok(b) => b,
        Err(e) => return Err(e),
    };
    let mut pkt: [u8; 102] = [0xFFu8; 102];
    let mut i: usize = 6;
    while i < 102
        invariant
            6 <= i <= 102,
            pkt@.len() == 102,
            forall|j: int| 0 <= j < 6 ==> pkt@[j] == 0xFFu8,
            forall|j: int| 6 <= j < i ==> pkt@[j] == bytes@[(j - 6) % 6],
        decreases 102 - i,
    {
        pkt[i] = bytes[(i - 6) % 6];
        i = i + 1;
    }
    assert(pkt@ =~= magic_seq(bytes@));
    Ok(pkt)
}


// ---------------------------------------------------------------------------
// Connecting with Wake-on-LAN
// ---------------------------------------------------------------------------

/// Where a connection attempt stands.
#[derive(Debug, Clone, Copy, PartialEq, Eq, Structural)]
pub enum WakePhase {
    /// Waiting for the result of the first handshake.
    Probe,
    /// Waiting for the magic packet to be sent.
    Send,
    /// Waiting out the initial wait after the packet.
    InitialWait,
    /// Waiting for the result of retry number `k` (from 0).
    Retry(u32),
    /// Waiting after a failed retry, before retry number `k` (or, once `k`
    /// reaches `max_retries`, before giving up).
    RetryWait(u32),
    /// Finished: whether a wake was attempted, and whether the machine is online.
    Done { woke: bool, online: bool },
}

/// What the caller observed while carrying out the last action.
pub enum WakeEvent {
    /// The handshake (`tmux -V` over ssh) finished.
    Handshake(Result<()>),
    /// Sending the magic packet finished.
    PacketSent(Result<()>),
    /// The requested wait is over.
    Slept,
}

/// What the caller must do next.
#[derive(Debug)]
pub enum WakeAction {
    /// Run a handshake with the machine.
    Handshake,
    /// Broadcast this magic packet.
    SendPacket([u8; 102]),
    /// Wait this long.
    Sleep(Duration),
    /// Stop; this is the outcome of the whole attempt.
    Finish(Result<()>),
}

/// The statuses to report, in order, and the next action.
#[derive(Debug)]
pub struct WakeStep {
    pub statuses: Vec<MachineStatus>,
    pub action: WakeAction,
}

/// An action as a mathematical value.
pub enum ActionSpec {
    Handshake,
    SendPacket(Seq<u8>),
    Sleep(Duration),
    Finish(Result<()>),
    /// Finish with the `ConfigError` for this MAC address (see `invalid_mac_text`).
    FinishInvalidMac(Seq<char>),
}

pub open spec fn action_is(a: WakeAction, s: ActionSpec) -> bool {
    match s {
        ActionSpec::Handshake => a is Handshake,
        ActionSpec::SendPacket(p) => a matches WakeAction::SendPacket(q) && q@ == p,
        ActionSpec::Sleep(d) => a == WakeAction::Sleep(d),
        ActionSpec::Finish(Ok(_)) => a matches WakeAction::Finish(Ok(_)),
        ActionSpec::Finish(Err(e)) => a matches WakeAction::Finish(Err(f)) && f == e,
        ActionSpec::FinishInvalidMac(mac) => a matches WakeAction::Finish(
            Err(OrchestratorError::ConfigError(t)),
        ) && t@ == invalid_mac_text(mac),
    }
}

/// Connecting to a machine, waking it first if it sleeps: a handshake; on
/// success the machine is online. Only a host that cannot be reached and has a
/// MAC address is woken: the magic packet is sent, then after the initial
/// wait up to `max_retries` handshakes are made, each failed one followed by
/// the retry interval (20 s, then five times 15 s, with the default policy),
/// after which the attempt gives up with `WakeTimeout`. Any other failure ends
/// the attempt with that failure. The caller carries out the actions and
/// reports what happened.
pub struct WakeFlow {
    pub phase: WakePhase,
    pub mac: Option<String>,
    pub policy: WakePolicy,
}

pub open spec fn statuses_of(online: bool) -> Seq<MachineStatus> {
    if online {
        seq![MachineStatus::Online]
    } else {
        seq![MachineStatus::Unreachable]
    }
}

impl WakeFlow {
    /// The phases that the flow can be in.
    pub open spec fn wf(self) -> bool {
        match self.phase {
            WakePhase::Probe => true,
            WakePhase::Send => self.mac is Some,
            WakePhase::InitialWait => self.mac is Some,
            WakePhase::Retry(k) => self.mac is Some && k < self.policy.max_retries,
            WakePhase::RetryWait(k) => self.mac is Some && 1 <= k <= self.policy.max_retries,
            WakePhase::Done { woke, online } => true,
        }
    }

    /// `ev` answers the action of the current phase.
    pub open spec fn awaits(self, ev: WakeEvent) -> bool {
        match self.phase {
            WakePhase::Probe => ev is Handshake,
            WakePhase::Send => ev is PacketSent,
            WakePhase::InitialWait => ev is Slept,
            WakePhase::Retry(_) => ev is Handshake,
            WakePhase::RetryWait(_) => ev is Slept,
            WakePhase::Done { .. } => false,
        }
    }

    /// The handshake outcome after which the machine is woken or tried again.
    pub open spec fn asleep(r: Result<()>) -> bool {
        r == Err::<(), OrchestratorError>(OrchestratorError::HostUnreachable)
    }

    /// The next phase, the statuses reported, and the next action.
    pub open spec fn transition(self, ev: WakeEvent) -> (WakePhase, Seq<MachineStatus>, ActionSpec) {
        match (self.phase, ev) {
            (WakePhase::Probe, WakeEvent::Handshake(r)) => {
                if r is Ok {
                    (WakePhase::Done { woke: false, online: true }, seq![MachineStatus::Online], ActionSpec::Finish(r))
                } else if Self::asleep(r) && self.mac is Some {
                    match mac_bytes(self.mac->0@) {
                        Some(b) => (WakePhase::Send, seq![MachineStatus::Waking], ActionSpec::SendPacket(magic_seq(b))),
                        None => (
                            WakePhase::Done { woke: true, online: false },
                            seq![MachineStatus::Waking, MachineStatus::Unreachable],
                            ActionSpec::FinishInvalidMac(self.mac->0@),
                        ),
                    }
                } else {
                    (WakePhase::Done { woke: false, online: false }, seq![MachineStatus::Unreachable], ActionSpec::Finish(r))
                }
            },
            (WakePhase::Send, WakeEvent::PacketSent(r)) => {
                if r is Ok {
                    (WakePhase::InitialWait, seq![], ActionSpec::Sleep(self.policy.initial_wait))
                } else {
                    (WakePhase::Done { woke: true, online: false }, seq![MachineStatus::Unreachable], ActionSpec::Finish(r))
                }
            },
            (WakePhase::InitialWait, WakeEvent::Slept) => {
                if 0 < self.policy.max_retries {
                    (WakePhase::Retry(0), seq![], ActionSpec::Handshake)
                } else {
                    (
                        WakePhase::Done { woke: true, online: false },
                        seq![MachineStatus::Unreachable],
                        ActionSpec::Finish(Err(OrchestratorError::WakeTimeout)),
                    )
                }
            },
            (WakePhase::Retry(k), WakeEvent::Handshake(r)) => {
                if r is Ok {
                    (WakePhase::Done { woke: true, online: true }, seq![MachineStatus::Online], ActionSpec::Finish(r))
                } else if Self::asleep(r) {
                    (WakePhase::RetryWait((k + 1) as u32), seq![], ActionSpec::Sleep(self.policy.retry_interval))
                } else {
                    (WakePhase::Done { woke: true, online: false }, seq![MachineStatus::Unreachable], ActionSpec::Finish(r))
                }
            },
            (WakePhase::RetryWait(k), WakeEvent::Slept) => {
                if k < self.policy.max_retries {
                    (WakePhase::Retry(k), seq![], ActionSpec::Handshake)
                } else {
                    (
                        WakePhase::Done { woke: true, online: false },
                        seq![MachineStatus::Unreachable],
                        ActionSpec::Finish(Err(OrchestratorError::WakeTimeout)),
                    )
                }
            },
            // An event that the phase does not await changes nothing.
            _ => (self.phase, seq![], ActionSpec::Handshake),
        }
    }

    /// A new attempt to connect to `m`: it starts with a handshake.
    pub fn start(m: &Machine, policy: &WakePolicy) -> (r: (WakeFlow, WakeStep))
        ensures
            r.0.phase == WakePhase::Probe,
            r.0.mac == m.mac,
            r.0.policy == *policy,
            r.0.wf(),
            r.1.statuses@.len() == 0,
            r.1.action is Handshake,
    {
        let flow = WakeFlow {
            phase: WakePhase::Probe,
            mac: crate::config::clone_opt_string(&m.mac),
            policy: policy.clone(),
        };
        (flow, WakeStep { statuses: Vec::new(), action: WakeAction::Handshake })
    }

    /// Whether `ev` answers the current action (see `awaits`).
    pub fn accepts(&self, ev: &WakeEvent) -> (b: bool)
        ensures
            b == self.awaits(*ev),
    {
        match (self.phase, ev) {
            (WakePhase::Probe, WakeEvent::Handshake(_)) => true,
            (WakePhase::Send, WakeEvent::PacketSent(_)) => true,
            (WakePhase::InitialWait, WakeEvent::Slept) => true,
            (WakePhase::Retry(_), WakeEvent::Handshake(_)) => true,
            (WakePhase::RetryWait(_), WakeEvent::Slept) => true,
            _ => false,
        }
    }

    /// Takes in what the caller observed and gives the statuses to report and
    /// the next action (see `transition`).
    pub fn step(&mut self, ev: WakeEvent) -> (r: WakeStep)
        requires
            old(self).wf(),
            old(self).awaits(ev),
        ensures
            final(self).phase == old(self).transition(ev).0,
            r.statuses@ == old(self).transition(ev).1,
            action_is(r.action, old(self).transition(ev).2),
            final(self).mac == old(self).mac,
            final(self).policy == old(self).policy,
            final(self).wf(),
    {
        let ghost before = *self;
        let mut statuses: Vec<MachineStatus> = Vec::new();
        let action = match ev {
            WakeEvent::Handshake(Ok(())) => {
                let woke = match self.phase {
                    WakePhase::Probe => false,
                    _ => true,
                };
                self.phase = WakePhase::Done { woke, online: true };
                statuses.push(MachineStatus::Online);
                WakeAction::Finish(Ok(()))
            },
            WakeEvent::Handshake(Err(e)) => {
                let unreachable = match e {
                    OrchestratorError::HostUnreachable => true,
                    _ => false,
                };
                match self.phase {
                    WakePhase::Probe => {
                        if unreachable && self.mac.is_some() {
                            statuses.push(MachineStatus::Waking);
                            let mac = self.mac.as_ref().unwrap();
                            match magic_packet(mac.as_str()) {
                                Ok(p) => {
                                    self.phase = WakePhase::Send;
                                    WakeAction::SendPacket(p)
                                },
                                Err(bad) => {
                                    self.phase = WakePhase::Done { woke: true, online: false };
                                    statuses.push(MachineStatus::Unreachable);
                                    WakeAction::Finish(Err(bad))
                                },
                            }
                        } else {
                            self.phase = WakePhase::Done { woke: false, online: false };
                            statuses.push(MachineStatus::Unreachable);
                            WakeAction::Finish(Err(e))
                        }
                    },
                    WakePhase::Retry(k) => {
                        if unreachable {
                            self.phase = WakePhase::RetryWait(k + 1);
                            WakeAction::Sleep(self.policy.retry_interval)
                        } else {
                            self.phase = WakePhase::Done { woke: true, online: false };
                            statuses.push(MachineStatus::Unreachable);
                            WakeAction::Finish(Err(e))
                        }
                    },
                    _ => WakeAction::Handshake,
                }
            },
            WakeEvent::PacketSent(r) => {
                match r {
                    Ok(()) => {
                        self.phase = WakePhase::InitialWait;
                        WakeAction::Sleep(self.policy.initial_wait)
                    },
                    Err(e) => {
                        self.phase = WakePhase::Done { woke: true, online: false };
                        statuses.push(MachineStatus::Unreachable);
                        WakeAction::Finish(Err(e))
                    },
                }
            },
            WakeEvent::Slept => {
                match self.phase {
                    WakePhase::InitialWait => {
                        if 0 < self.policy.max_retries {
                            self.phase = WakePhase::Retry(0);
                            WakeAction::Handshake
                        } else {
                            self.phase = WakePhase::Done { woke: true, online: false };
                            statuses.push(MachineStatus::Unreachable);
                            WakeAction::Finish(Err(OrchestratorError::WakeTimeout))
                        }
                    },
                    WakePhase::RetryWait(k) => {
                        if k < self.policy.max_retries {
                            self.phase = WakePhase::Retry(k);
                            WakeAction::Handshake
                        } else {
                            self.phase = WakePhase::Done { woke: true, online: false };
                            statuses.push(MachineStatus::Unreachable);
                            WakeAction::Finish(Err(OrchestratorError::WakeTimeout))
                        }
                    },
                    _ => WakeAction::Handshake,
                }
            },
        };
        assert(statuses@ =~= before.transition(ev).1);
        WakeStep { statuses, action }
    }
}


// ---------------------------------------------------------------------------
// Laws of the wake flow
// ---------------------------------------------------------------------------

/// A bound on the steps left: it falls with every step.
pub open spec fn steps_left(phase: WakePhase, max: u32) -> int {
    match phase {
        WakePhase::Probe => 2 * max + 3,
        WakePhase::Send => 2 * max + 2,
        WakePhase::InitialWait => 2 * max + 1,
        WakePhase::Retry(k) => 2 * (max - k),
        WakePhase::RetryWait(k) => 2 * (max - k) + 1,
        WakePhase::Done { .. } => 0,
    }
}

/// How many more handshakes may still be asked for.
pub open spec fn handshakes_left(phase: WakePhase, max: u32) -> int {
    match phase {
        WakePhase::Probe => max as int,
        WakePhase::Send => max as int,
        WakePhase::InitialWait => max as int,
        WakePhase::Retry(k) => max - k - 1,
        WakePhase::RetryWait(k) => max - k,
        WakePhase::Done { .. } => 0,
    }
}

/// The statuses reported on the way to a phase.
pub open spec fn history(phase: WakePhase) -> Seq<MachineStatus> {
    match phase {
        WakePhase::Probe => seq![],
        WakePhase::Done { woke, online } => if woke {
            seq![MachineStatus::Waking] + statuses_of(online)
        } else {
            statuses_of(online)
        },
        _ => seq![MachineStatus::Waking],
    }
}

/// Every step brings the attempt closer to its end: an attempt ends after at
/// most `2 * max_retries + 3` steps.
pub proof fn law_wake_terminates(flow: WakeFlow, ev: WakeEvent)
    requires
        flow.wf(),
        flow.awaits(ev),
    ensures
        0 <= steps_left(flow.transition(ev).0, flow.policy.max_retries) < steps_left(
            flow.phase,
            flow.policy.max_retries,
        ),
        steps_left(flow.phase, flow.policy.max_retries) <= 2 * flow.policy.max_retries + 3,
{
}

/// Each handshake asked for uses up one of the `max_retries` left after the
/// first, so an attempt makes at most `1 + max_retries` handshakes.
pub proof fn law_wake_handshake_budget(flow: WakeFlow, ev: WakeEvent)
    requires
        flow.wf(),
        flow.awaits(ev),
    ensures
        0 <= handshakes_left(flow.transition(ev).0, flow.policy.max_retries),
        flow.transition(ev).2 is Handshake ==> handshakes_left(
            flow.transition(ev).0,
            flow.policy.max_retries,
        ) == handshakes_left(flow.phase, flow.policy.max_retries) - 1,
        !(flow.transition(ev).2 is Handshake) ==> handshakes_left(
            flow.transition(ev).0,
            flow.policy.max_retries,
        ) <= handshakes_left(flow.phase, flow.policy.max_retries),
        handshakes_left(WakePhase::Probe, flow.policy.max_retries) == flow.policy.max_retries,
{
}

/// The attempt gives up with `WakeTimeout` (one that no handshake or send
/// itself reported) only once no handshake is left and the last wait is over:
/// all `max_retries` retries after the magic packet found the host
/// unreachable, and each of them was followed by the retry interval.
pub proof fn law_wake_timeout_uses_all_retries(flow: WakeFlow, ev: WakeEvent)
    requires
        flow.wf(),
        flow.awaits(ev),
        flow.transition(ev).2 == ActionSpec::Finish(Err(OrchestratorError::WakeTimeout)),
        ev != WakeEvent::Handshake(Err(OrchestratorError::WakeTimeout)),
        ev != WakeEvent::PacketSent(Err(OrchestratorError::WakeTimeout)),
    ensures
        handshakes_left(flow.phase, flow.policy.max_retries) == 0,
        ev is Slept,
        flow.phase is InitialWait ==> flow.policy.max_retries == 0,
        flow.phase is InitialWait || flow.phase == WakePhase::RetryWait(flow.policy.max_retries),
{
}

/// The statuses reported over a whole attempt are those of its final phase:
/// `[Online]`, `[Unreachable]`, `[Waking, Online]` or `[Waking, Unreachable]`.
pub proof fn law_wake_history(flow: WakeFlow, ev: WakeEvent)
    requires
        flow.wf(),
        flow.awaits(ev),
    ensures
        history(flow.transition(ev).0) == history(flow.phase) + flow.transition(ev).1,
{
    let t = flow.transition(ev);
    assert(history(t.0) =~= history(flow.phase) + t.1);
}

/// An attempt finishes exactly when it reaches its final phase; it succeeds
/// exactly when the last status it reports is `Online`, and otherwise the last
/// status is `Unreachable`.
pub proof fn law_wake_outcome(flow: WakeFlow, ev: WakeEvent)
    requires
        flow.wf(),
        flow.awaits(ev),
    ensures
        ({
            let (next, st, act) = flow.transition(ev);
            &&& (act is Finish || act is FinishInvalidMac) <==> next is Done
            &&& act is Finish ==> st.len() > 0 && ((act->Finish_0 is Ok) <==> st.last()
                == MachineStatus::Online)
            &&& act is FinishInvalidMac ==> st.len() > 0 && st.last() == MachineStatus::Unreachable
            &&& next matches WakePhase::Done { woke, online } ==> st.len() > 0 && (online
                <==> st.last() == MachineStatus::Online)
        }),
{
}

/// A machine without a MAC address is never woken: the first handshake
/// settles the attempt, and no magic packet is sent.
pub proof fn law_no_mac_never_wakes(flow: WakeFlow, ev: WakeEvent)
    requires
        flow.wf(),
        flow.awaits(ev),
        flow.mac is None,
    ensures
        !flow.transition(ev).1.contains(MachineStatus::Waking),
        !(flow.transition(ev).2 is SendPacket),
        flow.transition(ev).0 matches WakePhase::Done { woke, .. } && !woke,
{
    let st = flow.transition(ev).1;
    if st.contains(MachineStatus::Waking) {
        let i = choose|i: int| 0 <= i < st.len() && st[i] == MachineStatus::Waking;
    }
}

/// Only a host that cannot be reached is woken: an authentication failure, a
/// missing tmux or any other failure never leads to a magic packet.
pub proof fn law_wake_only_when_unreachable(flow: WakeFlow, ev: WakeEvent)
    requires
        flow.wf(),
        flow.awaits(ev),
        flow.transition(ev).1.contains(MachineStatus::Waking),
    ensures
        flow.phase == WakePhase::Probe,
        ev == WakeEvent::Handshake(Err(OrchestratorError::HostUnreachable)),
        flow.mac is Some,
{
    let st = flow.transition(ev).1;
    let i = choose|i: int| 0 <= i < st.len() && st[i] == MachineStatus::Waking;
}


// ---------------------------------------------------------------------------
// Whole attempts
// ---------------------------------------------------------------------------

/// The flow after `ev`.
pub open spec fn next_flow(flow: WakeFlow, ev: WakeEvent) -> WakeFlow {
    WakeFlow { phase: flow.transition(ev).0, mac: flow.mac, policy: flow.policy }
}

/// Each event of `evs`, in turn, answers the action asked for before it.
pub open spec fn answers_all(flow: WakeFlow, evs: Seq<WakeEvent>) -> bool
    decreases evs.len(),
{
    evs.len() == 0 || (flow.awaits(evs[0]) && answers_all(next_flow(flow, evs[0]), evs.drop_first()))
}

/// What a run of events does from `flow`: the phase it ends in, every status
/// reported in order, how many handshakes the steps asked for, and the last
/// action asked for (with no events, the handshake that `start` asks for).
pub open spec fn run(flow: WakeFlow, evs: Seq<WakeEvent>) -> (WakePhase, Seq<MachineStatus>, int, ActionSpec)
    decreases evs.len(),
{
    if evs.len() == 0 {
        (flow.phase, seq![], 0, ActionSpec::Handshake)
    } else {
        let t = flow.transition(evs[0]);
        let r = run(next_flow(flow, evs[0]), evs.drop_first());
        (
            r.0,
            t.1 + r.1,
            (if t.2 is Handshake { 1int } else { 0int }) + r.2,
            if evs.len() == 1 { t.2 } else { r.3 },
        )
    }
}

proof fn lemma_step(flow: WakeFlow, ev: WakeEvent)
    requires
        flow.wf(),
        flow.awaits(ev),
    ensures
        next_flow(flow, ev).wf(),
        ({
            let (next, st, act) = flow.transition(ev);
            let max = flow.policy.max_retries;
            &&& (act is Finish || act is FinishInvalidMac) <==> next is Done
            &&& (act matches ActionSpec::Finish(res) ==> ((res is Ok) <==> (next matches WakePhase::Done { online, .. } && online)))
            &&& (act is FinishInvalidMac ==> (next matches WakePhase::Done { online, .. } && !online))
            &&& ((!(next is Done) || ev is Slept) ==> handshakes_left(next, max) + (if act is Handshake { 1int } else { 0int }) == handshakes_left(flow.phase, max))
            &&& (act matches ActionSpec::Finish(Err(e)) ==> (ev == WakeEvent::Handshake(Err(e)) || ev == WakeEvent::PacketSent(Err(e)) || (ev is Slept && e == OrchestratorError::WakeTimeout)))
        }),
{
}

/// What every step keeps, over any run of events that answer the actions
/// asked for: the flow stays well formed; the statuses reported add up to the
/// history of the phase reached; each handshake asked for uses up one of those
/// left (exactly so, unless the run ended on a handshake or send); each event
/// uses up one of the steps left; and the run's last action finishes exactly
/// when the final phase is reached, with an outcome that matches it and an
/// error that the last event reported, or `WakeTimeout` after a wait.
pub proof fn law_wake_run(flow: WakeFlow, evs: Seq<WakeEvent>)
    requires
        flow.wf(),
        answers_all(flow, evs),
    ensures
        ({
            let r = run(flow, evs);
            let max = flow.policy.max_retries;
            &&& (WakeFlow { phase: r.0, mac: flow.mac, policy: flow.policy }).wf()
            &&& history(r.0) == history(flow.phase) + r.1
            &&& 0 <= r.2
            &&& r.2 + handshakes_left(r.0, max) <= handshakes_left(flow.phase, max)
            &&& ((!(r.0 is Done) || (evs.len() > 0 && evs.last() is Slept)) ==> r.2 + handshakes_left(r.0, max) == handshakes_left(flow.phase, max))
            &&& evs.len() + steps_left(r.0, max) <= steps_left(flow.phase, max)
            &&& (evs.len() > 0 ==> ((r.3 is Finish || r.3 is FinishInvalidMac) <==> r.0 is Done))
            &&& (evs.len() > 0 ==> (r.3 matches ActionSpec::Finish(res) ==> ((res is Ok) <==> (r.0 matches WakePhase::Done { online, .. } && online))))
            &&& (evs.len() > 0 ==> (r.3 is FinishInvalidMac ==> (r.0 matches WakePhase::Done { online, .. } && !online)))
            &&& (evs.len() > 0 ==> (r.3 matches ActionSpec::Finish(Err(e)) ==> (evs.last() == WakeEvent::Handshake(Err(e)) || evs.last() == WakeEvent::PacketSent(Err(e)) || (evs.last() is Slept && e == OrchestratorError::WakeTimeout))))
        }),
    decreases evs.len(),
{
    if evs.len() > 0 {
        let ev = evs[0];
        let next = next_flow(flow, ev);
        let rest = evs.drop_first();
        let t = flow.transition(ev);
        lemma_step(flow, ev);
        law_wake_history(flow, ev);
        law_wake_terminates(flow, ev);
        law_wake_handshake_budget(flow, ev);
        law_wake_run(next, rest);
        let rr = run(next, rest);
        assert(history(rr.0) == history(flow.phase) + (t.1 + rr.1)) by {
            assert(history(flow.phase) + t.1 + rr.1 =~= history(flow.phase) + (t.1 + rr.1));
        }
        if rest.len() > 0 {
            reveal_with_fuel(answers_all, 2);
            assert(rest.last() == evs.last());
            assert(next.awaits(rest[0]));
            assert(!(next.phase is Done));
        }
    }
}

/// A whole attempt, from the first handshake to its end: the statuses
/// reported are `[Online]`, `[Unreachable]`, `[Waking, Online]` or
/// `[Waking, Unreachable]`, never `Sleeping`; it ends with `Ok` exactly when
/// the last of them is `Online`; `Waking` comes first exactly when the first
/// handshake found the host unreachable and the machine has a MAC address;
/// besides the first handshake at most `max_retries` more are asked for, and
/// at most `2 * max_retries + 3` events are answered; and an error it ends
/// with is the one the last handshake or send reported, or `WakeTimeout`
/// after the last wait, once all `max_retries` retries were asked for.
pub proof fn law_wake_attempt(flow: WakeFlow, evs: Seq<WakeEvent>)
    requires
        flow.phase == WakePhase::Probe,
        answers_all(flow, evs),
        run(flow, evs).0 is Done,
    ensures
        ({
            let (last, st, hs, act) = run(flow, evs);
            let max = flow.policy.max_retries;
            &&& st == seq![MachineStatus::Online] || st == seq![MachineStatus::Unreachable] || st
                == seq![MachineStatus::Waking, MachineStatus::Online] || st == seq![
                MachineStatus::Waking,
                MachineStatus::Unreachable,
            ]
            &&& !st.contains(MachineStatus::Sleeping)
            &&& act is Finish || act is FinishInvalidMac
            &&& (act matches ActionSpec::Finish(res) ==> ((res is Ok) <==> st.last() == MachineStatus::Online))
            &&& (act is FinishInvalidMac ==> st.last() == MachineStatus::Unreachable)
            &&& (st[0] == MachineStatus::Waking) <==> (evs[0] == WakeEvent::Handshake(Err(OrchestratorError::HostUnreachable)) && flow.mac is Some)
            &&& 0 <= hs <= max
            &&& evs.len() <= 2 * max + 3
            &&& (act matches ActionSpec::Finish(Err(e)) ==> (evs.last() == WakeEvent::Handshake(Err(e)) || evs.last() == WakeEvent::PacketSent(Err(e)) || (evs.last() is Slept && e == OrchestratorError::WakeTimeout && hs == max)))
        }),
{
    let max = flow.policy.max_retries;
    law_wake_run(flow, evs);
    let r = run(flow, evs);
    assert(evs.len() > 0);
    let t = flow.transition(evs[0]);
    let rr = run(next_flow(flow, evs[0]), evs.drop_first());
    assert(r.1 == t.1 + rr.1);
    assert(t.1.len() > 0);
    assert(r.1[0] == t.1[0]);
    assert(r.1 == history(r.0)) by {
        assert(history(flow.phase) + r.1 =~= r.1);
    }
    if r.1.contains(MachineStatus::Sleeping) {
        let i = choose|i: int| 0 <= i < r.1.len() && r.1[i] == MachineStatus::Sleeping;
    }
}

} // verus!
