use sway_alttab::config::{Command, Config, WorkspaceMode};

#[test]
fn test_workspace_mode_default() {
    assert_eq!(WorkspaceMode::default(), WorkspaceMode::Current);
}

#[test]
fn test_command_default_is_daemon() {
    let config = Config {
        mode: WorkspaceMode::default(),
        verbose: false,
        command: None,
    };
    assert!(matches!(config.command(), Command::Daemon));
}

#[test]
fn test_command_show_when_specified() {
    let config = Config {
        mode: WorkspaceMode::default(),
        verbose: false,
        command: Some(Command::Show),
    };
    assert!(matches!(config.command(), Command::Show));
}

#[test]
fn test_command_daemon_when_specified() {
    let config = Config {
        mode: WorkspaceMode::default(),
        verbose: false,
        command: Some(Command::Daemon),
    };
    assert!(matches!(config.command(), Command::Daemon));
}

#[test]
fn test_workspace_mode_all() {
    let mode = WorkspaceMode::All;
    assert_eq!(mode, WorkspaceMode::All);
    assert_ne!(mode, WorkspaceMode::Current);
}

#[test]
fn test_config_verbose_flag() {
    let config = Config {
        mode: WorkspaceMode::Current,
        verbose: true,
        command: None,
    };
    assert!(config.verbose);
}
