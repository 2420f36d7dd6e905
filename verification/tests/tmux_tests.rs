use term_orchestrator_core::tmux::{
    capture_pane_command, capture_pane_result, check_exit, create_session_command,
    handshake_command, kill_session_command, list_sessions_command, list_sessions_result,
    parse_ls, send_keys_command, shell_single_quote, validate_session_name,
};
use term_orchestrator_core::{CmdOutput, Controller, OrchestratorError, SessionInfo};

fn out(code: i32, stdout: &str, stderr: &str) -> CmdOutput {
    CmdOutput {
        code,
        stdout: stdout.to_string(),
        stderr: stderr.to_string(),
    }
}

#[test]
fn valid_names_pass() {
    for n in ["main", "dev-1", "a_b", "X"] {
        assert!(validate_session_name(n).is_ok(), "{n}");
    }
}

#[test]
fn invalid_names_fail() {
    for n in ["", "a b", "x;rm -rf /", "$(id)", "ção", &"a".repeat(65)] {
        assert!(
            matches!(
                validate_session_name(n),
                Err(OrchestratorError::InvalidSessionName(_))
            ),
            "{n}"
        );
    }
}

#[test]
fn name_length_limit_is_64() {
    assert!(validate_session_name(&"a".repeat(64)).is_ok());
    assert_eq!(
        validate_session_name("a b"),
        Err(OrchestratorError::InvalidSessionName("a b".into()))
    );
}

#[test]
fn parse_ls_lines() {
    let out = "main|3|1\ndev|1|0\n";
    let s = parse_ls(out);
    assert_eq!(
        s,
        vec![
            SessionInfo {
                name: "main".into(),
                windows: 3,
                attached: true,
                controller: Controller::Unknown
            },
            SessionInfo {
                name: "dev".into(),
                windows: 1,
                attached: false,
                controller: Controller::Unknown
            },
        ]
    );
}

#[test]
fn parse_ls_skips_malformed() {
    assert_eq!(parse_ls("garbage\n|||\nok|2|0\n").len(), 1);
    assert!(parse_ls("").is_empty());
}

#[test]
fn parse_ls_trims_fields_and_ignores_extra_ones() {
    let s = parse_ls(" a | +4 | 2 |x\r\nb|99999999999|0\nc|1|-1\n  |1|1");
    assert_eq!(
        s,
        vec![SessionInfo {
            name: "a".into(),
            windows: 4,
            attached: true,
            controller: Controller::Unknown
        }]
    );
    assert_eq!(parse_ls("last|4294967295|0").len(), 1);
    assert_eq!(parse_ls("last|4294967295|0")[0].windows, u32::MAX);
    assert!(parse_ls("over|4294967296|0").is_empty());
}

#[test]
fn list_sessions_no_server_is_empty() {
    assert_eq!(
        list_sessions_result(&out(1, "", "no server running on /tmp/tmux-1000/default")).unwrap(),
        vec![]
    );
    assert_eq!(
        list_sessions_command(),
        r##"tmux ls -F "#{session_name}|#{session_windows}|#{session_attached}""##
    );
}

#[test]
fn list_sessions_without_socket_is_empty() {
    assert_eq!(
        list_sessions_result(&out(1, "", "error connecting to /tmp/tmux-1000/default")).unwrap(),
        vec![]
    );
    assert_eq!(
        list_sessions_result(&out(2, "", "no server running on x")).unwrap_err(),
        OrchestratorError::Io("no server running on x".into())
    );
}

#[test]
fn list_sessions_tmux_missing() {
    assert_eq!(
        list_sessions_result(&out(127, "", "bash: tmux: command not found")).unwrap_err(),
        OrchestratorError::TmuxMissing
    );
}

#[test]
fn list_sessions_parses_success() {
    assert_eq!(
        list_sessions_result(&out(0, "main|3|1\n", "")).unwrap(),
        parse_ls("main|3|1\n")
    );
}

#[test]
fn create_kill_capture_send_build_commands() {
    assert_eq!(
        create_session_command("dev").unwrap(),
        "tmux new-session -d -s dev"
    );
    assert_eq!(
        kill_session_command("dev").unwrap(),
        "tmux kill-session -t dev"
    );
    assert_eq!(
        capture_pane_command("dev", 50).unwrap(),
        "tmux capture-pane -p -t dev -S -50"
    );
    assert_eq!(
        capture_pane_result(out(0, "line1\nline2\n", "")).unwrap(),
        "line1\nline2\n"
    );
    assert_eq!(
        send_keys_command("dev", "ls -la").unwrap(),
        "tmux send-keys -t dev 'ls -la' Enter"
    );
}

#[test]
fn send_keys_escapes_single_quotes() {
    assert_eq!(
        send_keys_command("dev", "echo 'hi'").unwrap(),
        r#"tmux send-keys -t dev 'echo '\''hi'\''' Enter"#
    );
    assert_eq!(shell_single_quote(""), "''");
    assert_eq!(shell_single_quote("'"), r#"''\'''"#);
}

#[test]
fn ops_reject_bad_session_name_before_ssh() {
    for r in [
        create_session_command("a b"),
        kill_session_command("a b"),
        capture_pane_command("a b", 10),
        send_keys_command("a b", "ls"),
    ] {
        assert_eq!(r, Err(OrchestratorError::InvalidSessionName("a b".into())));
    }
}

#[test]
fn nonzero_exit_becomes_io_error() {
    assert_eq!(
        check_exit(&out(1, "", "can't find session: dev")).unwrap_err(),
        OrchestratorError::Io("can't find session: dev".into())
    );
    assert_eq!(
        capture_pane_result(out(1, "partial", "can't find session: dev")).unwrap_err(),
        OrchestratorError::Io("can't find session: dev".into())
    );
}

#[test]
fn handshake_ok_and_missing() {
    assert_eq!(check_exit(&out(0, "tmux 3.4\n", "")), Ok(()));
    assert_eq!(
        check_exit(&out(127, "", "tmux: not found")).unwrap_err(),
        OrchestratorError::TmuxMissing
    );
    assert_eq!(handshake_command(), "tmux -V");
}
