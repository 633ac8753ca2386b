use term_bridge::display::{blink_tick, CursorStyle};
use term_bridge::spawn::{
    build_spawn_command, BridgeError, Platform, PtyGeometry, TransportKind,
};

#[test]
fn pty_geometry_defaults_to_80_by_24() {
    let g = PtyGeometry::standard();
    assert_eq!(g.cols, 80);
    assert_eq!(g.rows, 24);
    assert_eq!(g.pixel_width, 0);
    assert_eq!(g.pixel_height, 0);
}

#[test]
fn posix_pty_spawn_uses_interactive_bash_without_term_override() {
    let c = build_spawn_command(
        &Platform::Posix,
        &TransportKind::Pty,
        "/tmp".to_string(),
        Some("/usr/bin:/bin".to_string()),
    );
    assert_eq!(c.program, "/bin/bash");
    assert_eq!(c.args, vec!["-i".to_string()]);
    assert_eq!(c.cwd, "/tmp");
    assert_eq!(c.env, vec![("PATH".to_string(), "/usr/bin:/bin".to_string())]);
}

#[test]
fn pipe_strategy_sets_fixed_terminal_type() {
    let c = build_spawn_command(
        &Platform::Posix,
        &TransportKind::PipePair,
        "/tmp".to_string(),
        Some("/bin".to_string()),
    );
    assert_eq!(
        c.env,
        vec![
            ("PATH".to_string(), "/bin".to_string()),
            ("TERM".to_string(), "vt100".to_string()),
        ]
    );
}

#[test]
fn windows_spawn_uses_native_shell_without_arguments() {
    let c = build_spawn_command(
        &Platform::Windows,
        &TransportKind::Pty,
        "C:\\work".to_string(),
        None,
    );
    assert_eq!(c.program, "cmd.exe");
    assert!(c.args.is_empty());
    assert!(c.env.is_empty());
}

#[test]
fn bridge_errors_have_distinct_messages() {
    assert_eq!(
        BridgeError::TransportCreation.message(),
        "could not create the terminal channel"
    );
    assert_eq!(BridgeError::Spawn.message(), "could not launch the shell");
}

#[test]
fn cursor_blinks_only_without_focus() {
    assert!(matches!(blink_tick(true, &CursorStyle::Dim), CursorStyle::Block));
    assert!(matches!(blink_tick(true, &CursorStyle::Block), CursorStyle::Block));
    assert!(matches!(blink_tick(false, &CursorStyle::Block), CursorStyle::Dim));
    assert!(matches!(blink_tick(false, &CursorStyle::Dim), CursorStyle::Block));
}
