use term_orchestrator_core::ssh::{build_args, classify_failure, ssh_outcome, SshRun};
use term_orchestrator_core::{CmdOutput, Machine, MachineOs, OrchestratorError};

fn m() -> Machine {
    Machine {
        name: "w1".into(),
        host: "10.0.0.5".into(),
        mac: None,
        os: MachineOs::Linux,
        ssh_user: "julio".into(),
        ssh_port: 2222,
        ssh_key: "/keys/id".into(),
        default_session: "main".into(),
    }
}

#[test]
fn build_args_has_fixed_flags_target_and_command() {
    let args = build_args(&m(), "tmux -V");
    let expected: Vec<String> = [
        "-i",
        "/keys/id",
        "-p",
        "2222",
        "-o",
        "BatchMode=yes",
        "-o",
        "ConnectTimeout=5",
        "-o",
        "StrictHostKeyChecking=accept-new",
        "julio@10.0.0.5",
        "tmux -V",
    ]
    .iter()
    .map(|s| s.to_string())
    .collect();
    assert_eq!(args, expected);
}

#[test]
fn build_args_writes_port_in_decimal() {
    let mut machine = m();
    machine.ssh_port = 0;
    assert_eq!(build_args(&machine, "x")[3], "0");
    machine.ssh_port = 65535;
    assert_eq!(build_args(&machine, "x")[3], "65535");
    machine.ssh_port = 22;
    assert_eq!(build_args(&machine, "x")[3], "22");
}

#[test]
fn classify_auth_failures() {
    assert_eq!(
        classify_failure(255, "julio@10.0.0.5: Permission denied (publickey)."),
        OrchestratorError::AuthFailed
    );
    assert_eq!(classify_failure(255, "Warning: Identity file /k not accessible: No such file or directory.\njulio@h: Permission denied (publickey)."), OrchestratorError::AuthFailed);
    assert_eq!(
        classify_failure(255, "Host key verification failed."),
        OrchestratorError::AuthFailed
    );
}

#[test]
fn classify_unreachable() {
    assert_eq!(
        classify_failure(
            255,
            "ssh: connect to host 10.0.0.5 port 22: Connection timed out"
        ),
        OrchestratorError::HostUnreachable
    );
    assert_eq!(
        classify_failure(
            255,
            "ssh: connect to host 10.0.0.5 port 22: Connection refused"
        ),
        OrchestratorError::HostUnreachable
    );
    assert_eq!(
        classify_failure(
            255,
            "ssh: connect to host 10.0.0.5 port 22: No route to host"
        ),
        OrchestratorError::HostUnreachable
    );
    assert_eq!(
        classify_failure(
            255,
            "ssh: Could not resolve hostname foo: Name or service not known"
        ),
        OrchestratorError::HostUnreachable
    );
}

#[test]
fn classify_tmux_missing() {
    assert_eq!(
        classify_failure(127, "bash: tmux: command not found"),
        OrchestratorError::TmuxMissing
    );
    assert_eq!(
        classify_failure(127, "sh: 1: tmux: not found"),
        OrchestratorError::TmuxMissing
    );
}

#[test]
fn classify_unknown_is_io_with_stderr() {
    assert_eq!(
        classify_failure(1, "weird"),
        OrchestratorError::Io("weird".into())
    );
}

#[test]
fn classify_checks_auth_before_reachability_and_trims() {
    assert_eq!(
        classify_failure(127, "Permission denied; connection refused"),
        OrchestratorError::AuthFailed
    );
    assert_eq!(
        classify_failure(127, "Network is unreachable"),
        OrchestratorError::HostUnreachable
    );
    assert_eq!(classify_failure(127, ""), OrchestratorError::TmuxMissing);
    assert_eq!(
        classify_failure(2, "  \tsomething broke\r\n"),
        OrchestratorError::Io("something broke".into())
    );
}

#[test]
fn ssh_outcome_maps_runs() {
    assert_eq!(
        ssh_outcome(SshRun::TimedOut),
        Err(OrchestratorError::HostUnreachable)
    );
    assert_eq!(
        ssh_outcome(SshRun::ClientMissing),
        Err(OrchestratorError::SshClientMissing)
    );
    assert_eq!(
        ssh_outcome(SshRun::SpawnFailed("denied".into())),
        Err(OrchestratorError::Io("denied".into()))
    );
    assert_eq!(
        ssh_outcome(SshRun::Exited {
            code: Some(255),
            stdout: String::new(),
            stderr: "Host key verification failed.".into()
        }),
        Err(OrchestratorError::AuthFailed)
    );
    assert_eq!(
        ssh_outcome(SshRun::Exited {
            code: Some(1),
            stdout: "out".into(),
            stderr: "err".into()
        }),
        Ok(CmdOutput {
            code: 1,
            stdout: "out".into(),
            stderr: "err".into()
        })
    );
    assert_eq!(
        ssh_outcome(SshRun::Exited {
            code: None,
            stdout: String::new(),
            stderr: String::new()
        }),
        Ok(CmdOutput {
            code: -1,
            stdout: String::new(),
            stderr: String::new()
        })
    );
}
