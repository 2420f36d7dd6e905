use term_orchestrator_core::config::{Config, ConfigRead, Machine, MachineOs};
use term_orchestrator_core::OrchestratorError;

fn sample() -> Machine {
    Machine {
        name: "w1".into(),
        host: "192.168.1.50".into(),
        mac: Some("AA:BB:CC:DD:EE:FF".into()),
        os: MachineOs::Linux,
        ssh_user: "julio".into(),
        ssh_port: 22,
        ssh_key: "/home/julio/.ssh/id_ed25519".into(),
        default_session: "main".into(),
    }
}

#[test]
fn upsert_replaces_by_name_and_remove_works() {
    let mut cfg = Config::default();
    cfg.upsert(sample());
    let mut changed = sample();
    changed.host = "10.0.0.9".into();
    cfg.upsert(changed.clone());
    assert_eq!(cfg.machine.len(), 1);
    assert_eq!(cfg.find("w1"), Some(&changed));
    assert!(cfg.remove("w1"));
    assert!(!cfg.remove("w1"));
    assert_eq!(cfg.find("w1"), None);
}

#[test]
fn load_missing_file_returns_default() {
    let cfg = Config::from_read(ConfigRead::Missing).unwrap();
    assert_eq!(cfg, Config::default());
    assert!(!cfg.onboarding_done);
    assert_eq!(cfg.mcp_port, 8321);
}

#[test]
fn load_errors_keep_their_text() {
    assert_eq!(
        Config::from_read(ConfigRead::Unreadable("denied".into())),
        Err(OrchestratorError::Io("denied".into()))
    );
    assert_eq!(
        Config::from_read(ConfigRead::Malformed("machines.toml: bad".into())),
        Err(OrchestratorError::ConfigError("machines.toml: bad".into()))
    );
    let mut cfg = Config::default();
    cfg.onboarding_done = true;
    cfg.upsert(sample());
    assert_eq!(Config::from_read(ConfigRead::Parsed(cfg.clone())), Ok(cfg));
}
