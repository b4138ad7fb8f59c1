use kanata_switcher::environment::{detect_environment, Environment};
use kanata_switcher::shell::{
    build_kde_focus_script, build_kde_query_script, gnome_state_name, is_gsettings_unavailable,
    kwin_script_object_path,
};
use kanata_switcher::status::{PauseBroadcaster, RestartHandle, RunOutcome, ShutdownHandle,
    run_outcome};
use kanata_switcher::wayland::{
    active_after_closed, cosmic_state_is_activated, next_active_toplevel, wlr_state_is_activated,
};
use kanata_switcher::x11::{
    active_window_id_from_property, window_title_from_property, window_title_from_wm_name,
    wm_class_from_property,
};

#[test]
fn test_detect_environment_order() {
    assert_eq!(
        detect_environment("ubuntu:GNOME", false, false, true, true),
        Environment::Gnome
    );
    assert_eq!(
        detect_environment("", true, true, true, true),
        Environment::Gnome
    );
    assert_eq!(
        detect_environment("KDE", false, true, true, true),
        Environment::Kde
    );
    assert_eq!(
        detect_environment("sway", false, false, true, true),
        Environment::Wayland
    );
    assert_eq!(
        detect_environment("i3", false, false, false, true),
        Environment::X11
    );
    assert_eq!(
        detect_environment("", false, false, false, false),
        Environment::Unknown
    );
}

#[test]
fn test_environment_names() {
    assert_eq!(Environment::Gnome.as_str(), "gnome");
    assert_eq!(Environment::Kde.as_str(), "kde");
    assert_eq!(Environment::Wayland.as_str(), "wayland");
    assert_eq!(Environment::X11.as_str(), "x11");
    assert_eq!(Environment::Unknown.as_str(), "unknown");
}

#[test]
fn test_kwin_script_object_path_generations() {
    assert_eq!(kwin_script_object_path(3, true), "/Scripting/Script3");
    assert_eq!(kwin_script_object_path(3, false), "/3");
    assert_eq!(kwin_script_object_path(42, true), "/Scripting/Script42");
}

#[test]
fn test_kde_query_script_contents() {
    let script = build_kde_query_script(true, ":1.42", "/com/example/Query0");
    assert!(script.contains("callDBus("));
    assert!(script.contains("\":1.42\""));
    assert!(script.contains("\"/com/example/Query0\""));
    assert!(script.contains("com.github.kanata.Switcher.KdeQuery"));
    assert!(script.contains("\"Focus\""));
    assert!(script.contains("workspace.activeWindow"));
    let old = build_kde_query_script(false, ":1.42", "/com/example/Query0");
    assert!(old.contains("workspace.activeClient"));
}

#[test]
fn test_kde_focus_script_contents() {
    let script = build_kde_focus_script(true);
    assert!(script.contains("workspace.windowActivated.connect(notifyFocus);"));
    assert!(script.contains("notifyFocus(workspace.activeWindow);"));
    assert!(script.contains("\"WindowFocus\""));
    assert!(script.contains("com.github.kanata.Switcher"));
    let old = build_kde_focus_script(false);
    assert!(old.contains("workspace.clientActivated.connect(notifyFocus);"));
    assert!(old.contains("notifyFocus(workspace.activeClient);"));
}

#[test]
fn test_gnome_state_names() {
    assert_eq!(gnome_state_name(1), "enabled");
    assert_eq!(gnome_state_name(2), "disabled");
    assert_eq!(gnome_state_name(3), "error");
    assert_eq!(gnome_state_name(4), "out_of_date");
    assert_eq!(gnome_state_name(5), "downloading");
    assert_eq!(gnome_state_name(6), "initialized");
    assert_eq!(gnome_state_name(0), "unknown");
    assert_eq!(gnome_state_name(9), "unknown");
}

#[test]
fn test_gsettings_unavailable_classification() {
    assert!(is_gsettings_unavailable(
        "gsettings: No Such File or Directory"
    ));
    assert!(is_gsettings_unavailable("command NOT FOUND"));
    assert!(!is_gsettings_unavailable("No such schema \"org.example\""));
}

#[test]
fn test_wlr_state_activated() {
    assert!(wlr_state_is_activated(&vec![1, 0, 0, 0, 2, 0, 0, 0]));
    assert!(!wlr_state_is_activated(&vec![1, 0, 0, 0, 3, 0, 0, 0]));
    assert!(!wlr_state_is_activated(&Vec::new()));
}

#[test]
fn test_cosmic_state_activated() {
    // Little-endian 32-bit values: [1, 2].
    assert!(cosmic_state_is_activated(&vec![1, 0, 0, 0, 2, 0, 0, 0]));
    // [1, 3]: no activated value.
    assert!(!cosmic_state_is_activated(&vec![1, 0, 0, 0, 3, 0, 0, 0]));
    // The byte 2 outside a value boundary does not count.
    assert!(!cosmic_state_is_activated(&vec![0, 2, 0, 0]));
    assert!(!cosmic_state_is_activated(&Vec::new()));
}

#[test]
fn test_active_toplevel_policy() {
    assert_eq!(next_active_toplevel(None, 7, true), Some(7));
    assert_eq!(next_active_toplevel(Some(3), 7, true), Some(7));
    assert_eq!(next_active_toplevel(Some(7), 7, false), None);
    assert_eq!(next_active_toplevel(Some(3), 7, false), Some(3));
    assert_eq!(active_after_closed(Some(7), 7), None);
    assert_eq!(active_after_closed(Some(3), 7), Some(3));
    assert_eq!(active_after_closed(None, 7), None);
}

#[test]
fn test_active_window_id_decoding() {
    assert_eq!(
        active_window_id_from_property(false, &vec![0x39, 0x05, 0x00, 0x00]),
        Some(0x539)
    );
    assert_eq!(active_window_id_from_property(false, &vec![0, 0, 0, 0]), None);
    assert_eq!(active_window_id_from_property(true, &vec![1, 0, 0, 0]), None);
    assert_eq!(active_window_id_from_property(false, &vec![1, 0, 0]), None);
}

#[test]
fn test_wm_class_takes_class_field() {
    let prop: Vec<u8> = b"instance\0TestApp\0".to_vec();
    assert_eq!(wm_class_from_property(&prop), Some("TestApp".to_string()));
    let no_nul: Vec<u8> = b"OnlyClass".to_vec();
    assert_eq!(wm_class_from_property(&no_nul), Some("OnlyClass".to_string()));
    assert_eq!(wm_class_from_property(&Vec::new()), None);
    let invalid: Vec<u8> = vec![b'a', 0, 0xff, 0xfe];
    assert_eq!(wm_class_from_property(&invalid), None);
}

#[test]
fn test_window_title_decoding() {
    let title: Vec<u8> = "Test Window Title".bytes().collect();
    assert_eq!(
        window_title_from_property(&title),
        Some("Test Window Title".to_string())
    );
    let invalid: Vec<u8> = vec![0xff, 0xfe];
    assert_eq!(window_title_from_property(&invalid), None);
}

#[test]
fn test_wm_name_fallback_decodes_latin1() {
    // The fallback title is Latin-1: every byte is the character of
    // the same code, so bytes invalid as UTF-8 still decode.
    let title: Vec<u8> = vec![b'C', b'a', b'f', 0xe9];
    assert_eq!(window_title_from_wm_name(&title), "Caf\u{e9}".to_string());
    assert_eq!(window_title_from_wm_name(&Vec::new()), "");
    let ascii: Vec<u8> = "plain".bytes().collect();
    assert_eq!(window_title_from_wm_name(&ascii), "plain".to_string());
}

#[test]
fn test_wait_for_restart_or_shutdown_returns_restart() {
    let mut restart_handle = RestartHandle::new();
    let shutdown_handle = ShutdownHandle::new();
    restart_handle.request();
    let outcome = run_outcome(
        restart_handle.is_requested(),
        shutdown_handle.is_requested(),
    );
    assert_eq!(outcome, RunOutcome::Restart);
}

#[test]
fn test_wait_for_restart_or_shutdown_returns_exit() {
    let restart_handle = RestartHandle::new();
    let mut shutdown_handle = ShutdownHandle::new();
    shutdown_handle.request();
    let outcome = run_outcome(
        restart_handle.is_requested(),
        shutdown_handle.is_requested(),
    );
    assert_eq!(outcome, RunOutcome::Exit);
}

#[test]
fn test_wait_for_restart_or_shutdown_shutdown_wins() {
    let mut restart_handle = RestartHandle::new();
    let mut shutdown_handle = ShutdownHandle::new();
    shutdown_handle.request();
    restart_handle.request();
    let outcome = run_outcome(
        restart_handle.is_requested(),
        shutdown_handle.is_requested(),
    );
    assert_eq!(outcome, RunOutcome::Exit);
}

#[test]
fn test_pause_flag_transitions() {
    let mut pause = PauseBroadcaster::new();
    assert!(!pause.is_paused());
    assert!(pause.set_paused(true));
    assert!(!pause.set_paused(true));
    assert!(pause.set_paused(false));
    assert!(!pause.set_paused(false));
}
