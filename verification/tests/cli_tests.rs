use kanata_switcher::cli::{
    autostart_passthrough_args, build_autostart_desktop_content, escape_desktop_exec_arg,
    resolve_control_command, resolve_install_gnome_extension, u16_to_string, CliGiven, CliOptions,
    ControlCommand, TrayFocusOnly,
};

fn default_options() -> CliOptions {
    CliOptions {
        port: 10000,
        host: "127.0.0.1".to_string(),
        config: None,
        quiet: false,
        quiet_focus: false,
        install_gnome_extension: false,
        no_install_gnome_extension: false,
        no_indicator: false,
        indicator_focus_only: None,
        install_autostart: false,
        uninstall_autostart: false,
        restart: false,
        pause: false,
        unpause: false,
    }
}

fn nothing_given() -> CliGiven {
    CliGiven {
        port: false,
        host: false,
        config: false,
        quiet: false,
        quiet_focus: false,
        install_gnome_extension: false,
        no_install_gnome_extension: false,
        no_indicator: false,
        indicator_focus_only: false,
    }
}

#[test]
fn test_autostart_passthrough_args_skip_oneshot() {
    // kanata-switcher --install-autostart -p 12000 --quiet-focus --no-indicator
    let mut opts = default_options();
    opts.install_autostart = true;
    opts.port = 12000;
    opts.quiet_focus = true;
    opts.no_indicator = true;
    let mut given = nothing_given();
    given.port = true;
    given.quiet_focus = true;
    given.no_indicator = true;

    let exec_args = autostart_passthrough_args(&opts, &given);
    assert_eq!(
        exec_args,
        vec![
            "-p".to_string(),
            "12000".to_string(),
            "--quiet-focus".to_string(),
            "--no-indicator".to_string()
        ]
    );
}

#[test]
fn test_autostart_passthrough_args_indicator_focus_only() {
    // kanata-switcher --install-autostart --indicator-focus-only false
    let mut opts = default_options();
    opts.install_autostart = true;
    opts.indicator_focus_only = Some(TrayFocusOnly::False);
    let mut given = nothing_given();
    given.indicator_focus_only = true;

    let exec_args = autostart_passthrough_args(&opts, &given);
    assert_eq!(
        exec_args,
        vec!["--indicator-focus-only".to_string(), "false".to_string()]
    );
}

#[test]
fn test_autostart_desktop_content_escapes_exec() {
    let exec_path = "/tmp/kanata switcher";
    let exec_args = vec![
        "--quiet-focus".to_string(),
        "-c".to_string(),
        "/tmp/config%file.json".to_string(),
    ];
    let content = build_autostart_desktop_content(exec_path, &exec_args);
    assert!(content.contains("Type=Application\n"));
    assert!(content.contains("Name=Kanata Switcher\n"));
    assert!(content.contains("X-GNOME-Autostart-enabled=true\n"));
    assert!(content.contains(
        "Exec=\"/tmp/kanata switcher\" \"--quiet-focus\" \"-c\" \"/tmp/config%%file.json\"\n"
    ));
    assert!(content.contains("TryExec=\"/tmp/kanata switcher\"\n"));
}

#[test]
fn test_control_command_restart() {
    // kanata-switcher --restart
    let mut opts = default_options();
    opts.restart = true;
    assert_eq!(
        resolve_control_command(&opts),
        Some(ControlCommand::Restart)
    );
}

#[test]
fn test_control_command_pause() {
    // kanata-switcher --pause
    let mut opts = default_options();
    opts.pause = true;
    assert_eq!(resolve_control_command(&opts), Some(ControlCommand::Pause));
}

#[test]
fn test_control_command_unpause() {
    // kanata-switcher --unpause
    let mut opts = default_options();
    opts.unpause = true;
    assert_eq!(
        resolve_control_command(&opts),
        Some(ControlCommand::Unpause)
    );
}

#[test]
fn test_control_command_none() {
    // kanata-switcher
    let opts = default_options();
    assert_eq!(resolve_control_command(&opts), None);
}

#[test]
fn test_escape_desktop_exec_arg_specials() {
    assert_eq!(escape_desktop_exec_arg("plain"), "\"plain\"");
    assert_eq!(escape_desktop_exec_arg("a%b"), "\"a%%b\"");
    assert_eq!(escape_desktop_exec_arg("a\"b\\c"), "\"a\\\"b\\\\c\"");
    assert_eq!(escape_desktop_exec_arg("a\nb\tc\rd"), "\"a\\nb\\tc\\rd\"");
}

#[test]
fn test_u16_to_string_values() {
    assert_eq!(u16_to_string(0), "0");
    assert_eq!(u16_to_string(7), "7");
    assert_eq!(u16_to_string(10000), "10000");
    assert_eq!(u16_to_string(65535), "65535");
}

#[test]
fn test_resolve_install_gnome_extension_later_flag_wins() {
    assert!(resolve_install_gnome_extension(false, false, None, None));
    assert!(resolve_install_gnome_extension(true, false, Some(1), None));
    assert!(!resolve_install_gnome_extension(false, true, None, Some(1)));
    assert!(resolve_install_gnome_extension(true, true, Some(3), Some(1)));
    assert!(!resolve_install_gnome_extension(true, true, Some(1), Some(3)));
}

#[test]
fn test_control_command_tokens() {
    assert_eq!(ControlCommand::Restart.dbus_method(), "Restart");
    assert_eq!(ControlCommand::Pause.dbus_method(), "Pause");
    assert_eq!(ControlCommand::Unpause.dbus_method(), "Unpause");
    assert_eq!(ControlCommand::Restart.label(), "restart");
    assert_eq!(ControlCommand::Pause.label(), "pause");
    assert_eq!(ControlCommand::Unpause.label(), "unpause");
    assert!(TrayFocusOnly::True.as_bool());
    assert!(!TrayFocusOnly::False.as_bool());
    assert_eq!(TrayFocusOnly::True.as_arg(), "true");
    assert_eq!(TrayFocusOnly::False.as_arg(), "false");
}
