use term_orchestrator_core::OrchestratorError;

#[test]
fn io_error_converts_to_io_variant() {
    let e: OrchestratorError = std::io::Error::other("boom").into();
    assert_eq!(e, OrchestratorError::Io("boom".to_string()));
}

#[test]
fn messages_name_the_failure() {
    assert_eq!(
        OrchestratorError::AuthFailed.message(),
        "SSH authentication failed (key rejected or missing)"
    );
    assert_eq!(
        OrchestratorError::HostUnreachable.message(),
        "host unreachable (timeout, refused or no route)"
    );
    assert_eq!(
        OrchestratorError::WakeTimeout.message(),
        "machine did not come online after Wake-on-LAN"
    );
    assert_eq!(
        OrchestratorError::TmuxMissing.message(),
        "tmux is not installed on the remote machine"
    );
    assert_eq!(
        OrchestratorError::SshClientMissing.message(),
        "ssh client not found in PATH"
    );
    assert_eq!(
        OrchestratorError::TerminalMissing.message(),
        "no supported terminal emulator found"
    );
    assert_eq!(
        OrchestratorError::InvalidSessionName("a b".into()).message(),
        "invalid session name: a b"
    );
    assert_eq!(
        OrchestratorError::ConfigError("bad".into()).message(),
        "config error: bad"
    );
    assert_eq!(
        OrchestratorError::Io("boom".into()).message(),
        "io error: boom"
    );
}
