use term_orchestrator_core::discovery::normalize_mac;
use term_orchestrator_core::tmux::{parse_ls, shell_single_quote};
use term_orchestrator_core::wol::{magic_packet, parse_mac};
use term_orchestrator_core::{Config, Controller, Machine, MachineOs, OrchestratorError, SessionInfo};

fn machine(name: &str, host: &str) -> Machine {
    Machine {
        name: name.into(),
        host: host.into(),
        mac: None,
        os: MachineOs::Linux,
        ssh_user: "u".into(),
        ssh_port: 22,
        ssh_key: "/k".into(),
        default_session: "main".into(),
    }
}

#[test]
fn upsert_then_find_gives_the_machine() {
    let mut cfg = Config::default();
    cfg.upsert(machine("a", "1"));
    cfg.upsert(machine("b", "2"));
    let m = machine("a", "3");
    cfg.upsert(m.clone());
    assert_eq!(cfg.find("a"), Some(&m));
    assert_eq!(cfg.find("b"), Some(&machine("b", "2")));
    assert_eq!(cfg.machine.len(), 2);
}

#[test]
fn upsert_twice_is_upsert_once() {
    let mut once = Config::default();
    once.upsert(machine("a", "1"));
    once.upsert(machine("b", "2"));
    let mut twice = Config::default();
    twice.upsert(machine("a", "1"));
    twice.upsert(machine("b", "2"));
    once.upsert(machine("a", "9"));
    twice.upsert(machine("a", "9"));
    twice.upsert(machine("a", "9"));
    assert_eq!(once, twice);
}

#[test]
fn remove_after_upsert_is_remove() {
    let mut a = Config::default();
    a.upsert(machine("x", "1"));
    a.upsert(machine("y", "2"));
    let mut b = Config::default();
    b.upsert(machine("x", "1"));
    b.upsert(machine("y", "2"));
    a.upsert(machine("x", "7"));
    assert!(a.remove("x"));
    assert!(b.remove("x"));
    assert_eq!(a, b);
    assert_eq!(a.find("y"), Some(&machine("y", "2")));
    assert!(!a.remove("x"));
}

#[test]
fn remove_drops_every_duplicate() {
    let mut cfg = Config::default();
    cfg.machine.push(machine("d", "1"));
    cfg.machine.push(machine("e", "2"));
    cfg.machine.push(machine("d", "3"));
    assert_eq!(cfg.find("d"), Some(&machine("d", "1")));
    assert!(cfg.remove("d"));
    assert_eq!(cfg.machine, vec![machine("e", "2")]);
}

#[test]
fn normalized_mac_is_canonical_and_keeps_bytes() {
    for raw in ["aa-bb-cc-01-02-03", " Aa:bB-cc:01:02:03\t"] {
        let n = normalize_mac(raw).unwrap();
        assert_eq!(n, "AA:BB:CC:01:02:03");
        assert_eq!(normalize_mac(&n), Some(n.clone()));
        assert_eq!(parse_mac(&n), parse_mac(raw.trim()));
        assert_eq!(magic_packet(&n), magic_packet(raw.trim()));
    }
}

#[test]
fn signed_groups_are_not_mac_groups() {
    assert_eq!(normalize_mac("+a:bb:cc:01:02:03"), None);
    assert!(matches!(
        parse_mac("+a:bb:cc:01:02:03"),
        Err(OrchestratorError::ConfigError(_))
    ));
    assert!(magic_packet("aa:bb:cc:01:02:+3").is_err());
}

#[test]
fn written_counts_read_back() {
    let text = format!("s1|{}|{}\ns2|0|0\n", u32::MAX, 7);
    assert_eq!(
        parse_ls(&text),
        vec![
            SessionInfo {
                name: "s1".into(),
                windows: u32::MAX,
                attached: true,
                controller: Controller::Unknown
            },
            SessionInfo {
                name: "s2".into(),
                windows: 0,
                attached: false,
                controller: Controller::Unknown
            },
        ]
    );
}

#[test]
fn quoting_keeps_every_character() {
    assert_eq!(shell_single_quote("a'b"), r#"'a'\''b'"#);
    assert_eq!(shell_single_quote("$(id); echo \\"), r#"'$(id); echo \'"#);
}
