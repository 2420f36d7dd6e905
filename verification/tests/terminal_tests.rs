use term_orchestrator_core::terminal::{
    attach_command, detect_terminal_in, launch_failure, linux_candidates, ssh_attach_args,
    windows_candidates,
};
use term_orchestrator_core::{Machine, MachineOs, OrchestratorError, Terminal};

fn m() -> Machine {
    Machine {
        name: "w1".into(),
        host: "10.0.0.5".into(),
        mac: None,
        os: MachineOs::Linux,
        ssh_user: "julio".into(),
        ssh_port: 22,
        ssh_key: "/keys/id".into(),
        default_session: "main".into(),
    }
}

#[test]
fn attach_args_use_new_session_attach_or_create() {
    let args = ssh_attach_args(&m(), "main");
    assert_eq!(
        args,
        vec![
            "-i",
            "/keys/id",
            "-p",
            "22",
            "-o",
            "StrictHostKeyChecking=accept-new",
            "julio@10.0.0.5",
            "-t",
            "tmux new-session -A -s main",
        ]
    );
}

#[test]
fn detect_picks_first_existing_candidate() {
    let c = [
        ("wt.exe", Terminal::WindowsTerminal),
        ("cmd.exe", Terminal::Cmd),
    ];
    let t = detect_terminal_in(&c, &|n: &str| n == "cmd.exe").unwrap();
    assert_eq!(t, Terminal::Cmd);
    let t = detect_terminal_in(&c, &|_: &str| true).unwrap();
    assert_eq!(t, Terminal::WindowsTerminal);
}

#[test]
fn detect_none_is_terminal_missing() {
    let c = [("xterm", Terminal::Xterm)];
    assert_eq!(
        detect_terminal_in(&c, &|_: &str| false).unwrap_err(),
        OrchestratorError::TerminalMissing
    );
}

#[test]
fn spawn_rejects_bad_session_name() {
    assert!(matches!(
        attach_command(Terminal::Xterm, &m(), "a b"),
        Err(OrchestratorError::InvalidSessionName(_))
    ));
}

#[test]
fn candidates_in_order() {
    assert_eq!(
        linux_candidates(),
        vec![
            ("gnome-terminal", Terminal::GnomeTerminal),
            ("konsole", Terminal::Konsole),
            ("xterm", Terminal::Xterm)
        ]
    );
    assert_eq!(
        windows_candidates(),
        vec![("wt.exe", Terminal::WindowsTerminal), ("cmd.exe", Terminal::Cmd)]
    );
}

#[test]
fn attach_command_per_terminal() {
    let ssh = ssh_attach_args(&m(), "dev");
    let (prog, args) = attach_command(Terminal::Konsole, &m(), "dev").unwrap();
    assert_eq!(prog, "konsole");
    let mut want: Vec<String> = ["-p", "tabtitle=w1:dev", "-e", "ssh"]
        .iter()
        .map(|s| s.to_string())
        .collect();
    want.extend(ssh.clone());
    assert_eq!(args, want);

    let (prog, args) = attach_command(Terminal::WindowsTerminal, &m(), "dev").unwrap();
    assert_eq!(prog, "wt.exe");
    assert_eq!(&args[..4], &["new-tab", "--title", "w1:dev", "ssh"]);
    assert_eq!(&args[4..], &ssh[..]);

    let (prog, args) = attach_command(Terminal::Cmd, &m(), "dev").unwrap();
    assert_eq!(prog, "cmd.exe");
    assert_eq!(&args[..4], &["/c", "start", "w1:dev", "ssh"]);

    let (prog, args) = attach_command(Terminal::GnomeTerminal, &m(), "dev").unwrap();
    assert_eq!(prog, "gnome-terminal");
    assert_eq!(&args[..4], &["--title", "w1:dev", "--", "ssh"]);

    let (prog, args) = attach_command(Terminal::Xterm, &m(), "dev").unwrap();
    assert_eq!(prog, "xterm");
    assert_eq!(&args[..4], &["-T", "w1:dev", "-e", "ssh"]);
}

#[test]
fn launch_failure_kinds() {
    assert_eq!(launch_failure(true, "x".into()), OrchestratorError::TerminalMissing);
    assert_eq!(
        launch_failure(false, "denied".into()),
        OrchestratorError::Io("denied".into())
    );
}
