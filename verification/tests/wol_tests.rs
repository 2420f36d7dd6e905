use std::collections::VecDeque;
use std::time::Duration;

use term_orchestrator_core::wol::{
    magic_packet, parse_mac, WakeAction, WakeEvent, WakeFlow,
};
use term_orchestrator_core::{Machine, MachineOs, MachineStatus, OrchestratorError, WakePolicy};

fn m(mac: Option<&str>) -> Machine {
    Machine {
        name: "w1".into(),
        host: "h".into(),
        mac: mac.map(String::from),
        os: MachineOs::Linux,
        ssh_user: "u".into(),
        ssh_port: 22,
        ssh_key: "/k".into(),
        default_session: "main".into(),
    }
}

fn fast() -> WakePolicy {
    WakePolicy {
        initial_wait: Duration::from_millis(1),
        retry_interval: Duration::from_millis(1),
        max_retries: 3,
    }
}

struct Run {
    result: Result<(), OrchestratorError>,
    seen: Vec<MachineStatus>,
    handshakes: usize,
    packets: Vec<[u8; 102]>,
    sleeps: Vec<Duration>,
}

/// Drives a wake flow, answering handshakes from `answers` in order.
fn drive(
    machine: &Machine,
    policy: &WakePolicy,
    answers: Vec<Result<(), OrchestratorError>>,
    send: Result<(), OrchestratorError>,
) -> Run {
    let mut answers: VecDeque<_> = answers.into();
    let (mut flow, mut step) = WakeFlow::start(machine, policy);
    let mut run = Run {
        result: Ok(()),
        seen: vec![],
        handshakes: 0,
        packets: vec![],
        sleeps: vec![],
    };
    loop {
        run.seen.extend(step.statuses.iter().copied());
        let ev = match step.action {
            WakeAction::Handshake => {
                run.handshakes += 1;
                WakeEvent::Handshake(answers.pop_front().expect("no answer queued"))
            }
            WakeAction::SendPacket(p) => {
                run.packets.push(p);
                WakeEvent::PacketSent(send.clone())
            }
            WakeAction::Sleep(d) => {
                run.sleeps.push(d);
                WakeEvent::Slept
            }
            WakeAction::Finish(r) => {
                run.result = r;
                return run;
            }
        };
        assert!(flow.accepts(&ev));
        step = flow.step(ev);
    }
}

#[test]
fn parse_mac_accepts_colon_dash_and_case() {
    let want = [0xAA, 0xBB, 0xCC, 0x01, 0x02, 0x03];
    assert_eq!(parse_mac("AA:BB:CC:01:02:03").unwrap(), want);
    assert_eq!(parse_mac("aa-bb-cc-01-02-03").unwrap(), want);
}

#[test]
fn parse_mac_rejects_garbage() {
    for bad in [
        "",
        "AA:BB:CC",
        "ZZ:BB:CC:01:02:03",
        "AABBCC010203",
        "A:B:C:1:2:3",
    ] {
        assert!(
            matches!(parse_mac(bad), Err(OrchestratorError::ConfigError(_))),
            "{bad}"
        );
    }
}

#[test]
fn parse_mac_error_names_the_input() {
    assert_eq!(
        parse_mac("nope"),
        Err(OrchestratorError::ConfigError("invalid MAC `nope`".into()))
    );
}

#[test]
fn magic_packet_layout() {
    let p = magic_packet("AA:BB:CC:01:02:03").unwrap();
    assert!(p[..6].iter().all(|&b| b == 0xFF));
    for i in 0..16 {
        assert_eq!(
            &p[6 + i * 6..12 + i * 6],
            &[0xAA, 0xBB, 0xCC, 0x01, 0x02, 0x03]
        );
    }
}

#[test]
fn default_policy_is_20s_15s_5() {
    let p = WakePolicy::default();
    assert_eq!(p.initial_wait, Duration::from_secs(20));
    assert_eq!(p.retry_interval, Duration::from_secs(15));
    assert_eq!(p.max_retries, 5);
}

#[test]
fn online_first_try_emits_only_online() {
    let r = drive(&m(Some("AA:BB:CC:01:02:03")), &fast(), vec![Ok(())], Ok(()));
    assert_eq!(r.result, Ok(()));
    assert_eq!(r.seen, vec![MachineStatus::Online]);
    assert_eq!(r.handshakes, 1);
}

#[test]
fn no_mac_goes_straight_to_unreachable() {
    let r = drive(
        &m(None),
        &fast(),
        vec![Err(OrchestratorError::HostUnreachable)],
        Ok(()),
    );
    assert_eq!(r.result.unwrap_err(), OrchestratorError::HostUnreachable);
    assert_eq!(r.seen, vec![MachineStatus::Unreachable]);
    assert_eq!(r.handshakes, 1);
    assert!(r.packets.is_empty());
}

#[test]
fn auth_failure_does_not_trigger_wake() {
    let r = drive(
        &m(Some("AA:BB:CC:01:02:03")),
        &fast(),
        vec![Err(OrchestratorError::AuthFailed)],
        Ok(()),
    );
    assert_eq!(r.result.unwrap_err(), OrchestratorError::AuthFailed);
    assert_eq!(r.seen, vec![MachineStatus::Unreachable]);
    assert!(r.packets.is_empty());
}

#[test]
fn wakes_then_online_on_second_retry() {
    let r = drive(
        &m(Some("AA:BB:CC:01:02:03")),
        &fast(),
        vec![
            Err(OrchestratorError::HostUnreachable),
            Err(OrchestratorError::HostUnreachable),
            Ok(()),
        ],
        Ok(()),
    );
    assert_eq!(r.result, Ok(()));
    assert_eq!(r.seen, vec![MachineStatus::Waking, MachineStatus::Online]);
    assert_eq!(r.handshakes, 3);
    assert_eq!(r.packets, vec![magic_packet("AA:BB:CC:01:02:03").unwrap()]);
    assert_eq!(r.sleeps, vec![Duration::from_millis(1), Duration::from_millis(1)]);
}

#[test]
fn exhausts_retries_into_wake_timeout() {
    let r = drive(
        &m(Some("AA:BB:CC:01:02:03")),
        &fast(),
        vec![Err(OrchestratorError::HostUnreachable); 4],
        Ok(()),
    );
    assert_eq!(r.result.unwrap_err(), OrchestratorError::WakeTimeout);
    assert_eq!(
        r.seen,
        vec![MachineStatus::Waking, MachineStatus::Unreachable]
    );
    assert_eq!(r.handshakes, 4); // 1 initial + 3 retries
    assert_eq!(r.sleeps.len(), 4); // initial wait + one after each failed retry
}

#[test]
fn default_policy_gives_up_after_about_95_seconds() {
    let r = drive(
        &m(Some("AA:BB:CC:01:02:03")),
        &WakePolicy::default(),
        vec![Err(OrchestratorError::HostUnreachable); 6],
        Ok(()),
    );
    assert_eq!(r.result, Err(OrchestratorError::WakeTimeout));
    assert_eq!(r.seen, vec![MachineStatus::Waking, MachineStatus::Unreachable]);
    assert_eq!(r.handshakes, 6);
    let mut want = vec![Duration::from_secs(20)];
    want.extend([Duration::from_secs(15); 5]);
    assert_eq!(r.sleeps, want);
    assert_eq!(r.sleeps.iter().sum::<Duration>(), Duration::from_secs(95));
}

#[test]
fn other_failure_on_third_retry_is_reported_as_is() {
    let policy = WakePolicy {
        max_retries: 5,
        ..fast()
    };
    let r = drive(
        &m(Some("AA:BB:CC:01:02:03")),
        &policy,
        vec![
            Err(OrchestratorError::HostUnreachable),
            Err(OrchestratorError::HostUnreachable),
            Err(OrchestratorError::HostUnreachable),
            Err(OrchestratorError::AuthFailed),
        ],
        Ok(()),
    );
    assert_eq!(r.result, Err(OrchestratorError::AuthFailed));
    assert_eq!(r.seen, vec![MachineStatus::Waking, MachineStatus::Unreachable]);
    assert_eq!(r.handshakes, 1 + 3);
    assert_eq!(r.packets.len(), 1);
    assert_eq!(r.sleeps.len(), 1 + 2);
}

#[test]
fn invalid_mac_is_config_error_after_waking_status() {
    let r = drive(
        &m(Some("nope")),
        &fast(),
        vec![Err(OrchestratorError::HostUnreachable)],
        Ok(()),
    );
    assert!(matches!(r.result.unwrap_err(), OrchestratorError::ConfigError(_)));
    assert_eq!(
        r.seen,
        vec![MachineStatus::Waking, MachineStatus::Unreachable]
    );
}

#[test]
fn failed_send_is_unreachable() {
    let r = drive(
        &m(Some("AA:BB:CC:01:02:03")),
        &fast(),
        vec![Err(OrchestratorError::HostUnreachable)],
        Err(OrchestratorError::Io("no network".into())),
    );
    assert_eq!(r.result, Err(OrchestratorError::Io("no network".into())));
    assert_eq!(r.seen, vec![MachineStatus::Waking, MachineStatus::Unreachable]);
}

#[test]
fn zero_retries_times_out_after_initial_wait() {
    let policy = WakePolicy {
        max_retries: 0,
        ..fast()
    };
    let r = drive(
        &m(Some("AA:BB:CC:01:02:03")),
        &policy,
        vec![Err(OrchestratorError::HostUnreachable)],
        Ok(()),
    );
    assert_eq!(r.result, Err(OrchestratorError::WakeTimeout));
    assert_eq!(r.handshakes, 1);
    assert_eq!(r.seen, vec![MachineStatus::Waking, MachineStatus::Unreachable]);
}

#[test]
fn other_failure_during_retries_ends_attempt() {
    let r = drive(
        &m(Some("AA:BB:CC:01:02:03")),
        &fast(),
        vec![
            Err(OrchestratorError::HostUnreachable),
            Err(OrchestratorError::TmuxMissing),
        ],
        Ok(()),
    );
    assert_eq!(r.result, Err(OrchestratorError::TmuxMissing));
    assert_eq!(r.seen, vec![MachineStatus::Waking, MachineStatus::Unreachable]);
    assert_eq!(r.handshakes, 2);
}
