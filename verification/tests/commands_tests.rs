use term_orchestrator_core::commands::{
    find_machine, machine_line, no_machines_line, parse_os, session_line, session_lines, status_label,
};
use term_orchestrator_core::{Controller, SessionInfo};
use term_orchestrator_core::{Config, Machine, MachineOs, OrchestratorError};

fn machine(name: &str) -> Machine {
    Machine {
        name: name.into(),
        host: "10.0.0.1".into(),
        mac: None,
        os: MachineOs::Unknown,
        ssh_user: "u".into(),
        ssh_port: 22,
        ssh_key: "/k".into(),
        default_session: "main".into(),
    }
}

#[test]
fn find_machine_or_message() {
    let mut cfg = Config::default();
    cfg.upsert(machine("w1"));
    assert_eq!(find_machine(&cfg, "w1").unwrap().name, "w1");
    assert_eq!(
        find_machine(&cfg, "w2").unwrap_err(),
        "machine `w2` not found (see `torch machines list`)"
    );
}

#[test]
fn parse_os_names() {
    assert_eq!(parse_os("linux"), Ok(MachineOs::Linux));
    assert_eq!(parse_os("windows_wsl"), Ok(MachineOs::WindowsWsl));
    assert_eq!(parse_os("wsl"), Ok(MachineOs::WindowsWsl));
    assert_eq!(parse_os("unknown"), Ok(MachineOs::Unknown));
    assert_eq!(
        parse_os("Linux"),
        Err("unknown os `Linux` (linux|windows_wsl|unknown)".to_string())
    );
}

#[test]
fn status_labels() {
    assert_eq!(status_label(&Ok(()), true), "online");
    assert_eq!(
        status_label(&Err(OrchestratorError::HostUnreachable), true),
        "sleeping? (host unreachable (timeout, refused or no route))"
    );
    assert_eq!(
        status_label(&Err(OrchestratorError::AuthFailed), false),
        "unreachable (SSH authentication failed (key rejected or missing))"
    );
}

#[test]
fn listing_lines_are_padded_like_format() {
    let mut m = machine("w1");
    m.mac = Some("AA:BB:CC:DD:EE:FF".into());
    assert_eq!(
        machine_line(&m, "online"),
        format!(
            "{:<12} {:<16} {:<6} {:<12} mac={:<17} {}",
            "w1", "10.0.0.1", 22u16, "u", "AA:BB:CC:DD:EE:FF", "online"
        )
    );
    let long = machine("a-very-long-machine-name");
    assert_eq!(
        machine_line(&long, "x"),
        format!(
            "{:<12} {:<16} {:<6} {:<12} mac={:<17} {}",
            "a-very-long-machine-name", "10.0.0.1", 22u16, "u", "-", "x"
        )
    );
    let s = SessionInfo {
        name: "main".into(),
        windows: 3,
        attached: true,
        controller: Controller::Unknown,
    };
    assert_eq!(session_line(&s), format!("{:<20} windows={:<3} {}", "main", 3, "attached"));
    let s = SessionInfo {
        name: "ção".into(),
        windows: 1234,
        attached: false,
        controller: Controller::Unknown,
    };
    assert_eq!(session_line(&s), format!("{:<20} windows={:<3} {}", "ção", 1234, "detached"));
}

#[test]
fn session_listing_says_when_there_is_none() {
    assert_eq!(session_lines(&vec![]), vec!["no sessions".to_string()]);
    let a = SessionInfo {
        name: "main".into(),
        windows: 3,
        attached: true,
        controller: Controller::Unknown,
    };
    let b = SessionInfo {
        name: "work".into(),
        windows: 1,
        attached: false,
        controller: Controller::Unknown,
    };
    assert_eq!(
        session_lines(&vec![a.clone(), b.clone()]),
        vec![session_line(&a), session_line(&b)]
    );
}

#[test]
fn empty_registry_names_the_file() {
    assert_eq!(
        no_machines_line("/home/u/.config/torch/machines.toml"),
        "no machines registered (/home/u/.config/torch/machines.toml)"
    );
}
