use kanata_switcher::cli::{resolve_sni_focus_only, TrayFocusOnly};
use kanata_switcher::status::{LayerSource, StatusBroadcaster, StatusSnapshot};
use kanata_switcher::tray::{
    display_strings, format_layer_letter, format_virtual_keys, tooltip_text, SniIndicatorState,
};

fn snapshot(layer: &str, vks: Vec<&str>, source: LayerSource) -> StatusSnapshot {
    StatusSnapshot {
        layer: layer.to_string(),
        virtual_keys: vks.into_iter().map(String::from).collect(),
        layer_source: source,
    }
}

#[test]
fn test_sni_format_layer_letter() {
    assert_eq!(format_layer_letter("base"), "B");
    assert_eq!(format_layer_letter(""), "?");
    assert_eq!(format_layer_letter("  "), "?");
}

#[test]
fn test_sni_format_virtual_keys() {
    assert_eq!(format_virtual_keys(&Vec::new()), "");
    assert_eq!(
        format_virtual_keys(&vec![String::from("vk_media")]),
        "V"
    );
    assert_eq!(
        format_virtual_keys(&vec![String::from("a"), String::from("b")]),
        "2"
    );
    let keys = vec!["a", "b", "c", "d", "e", "f", "g", "h", "i", "j"]
        .into_iter()
        .map(String::from)
        .collect::<Vec<_>>();
    assert_eq!(format_virtual_keys(&keys), "∞");
}

#[test]
fn test_sni_indicator_state_focus_only() {
    let initial = snapshot("base", vec![], LayerSource::External);
    let mut state = SniIndicatorState::new(initial, true);
    assert_eq!(state.display_status().layer, "base");

    let focus_status = snapshot("browser", vec!["vk_browser"], LayerSource::Focus);
    state.update_status(focus_status);
    assert_eq!(state.display_status().layer, "browser");

    state.toggle_focus_only();
    assert_eq!(state.display_status().layer, "browser");

    let external_status = snapshot("external", vec![], LayerSource::External);
    state.update_status(external_status);
    assert_eq!(state.display_status().layer, "external");

    state.toggle_focus_only();
    assert_eq!(state.display_status().layer, "browser");

    state.set_paused(true);
    assert_eq!(state.display_status().layer, "external");
}

#[test]
fn test_sni_indicator_state_initial_focus_only_false() {
    let initial = snapshot("base", vec![], LayerSource::External);
    let mut state = SniIndicatorState::new(initial, false);

    let focus_status = snapshot("browser", vec!["vk_browser"], LayerSource::Focus);
    state.update_status(focus_status);

    let external_status = snapshot("external", vec![], LayerSource::External);
    state.update_status(external_status);

    assert_eq!(state.display_status().layer, "external");
}

#[test]
fn test_sni_menu_toggle_affects_display() {
    let initial = snapshot("base", vec![], LayerSource::External);
    let mut state = SniIndicatorState::new(initial, true);

    let focus_status = snapshot("browser", vec!["vk_browser"], LayerSource::Focus);
    state.update_status(focus_status);

    let (layer_text, _) = display_strings(&state);
    assert_eq!(layer_text, "B");

    let external_status = snapshot("external", vec![], LayerSource::External);
    state.update_status(external_status);

    state.toggle_focus_only();
    let (layer_text, vk_text) = display_strings(&state);
    assert_eq!(layer_text, "E");
    assert!(vk_text.is_empty());

    state.toggle_focus_only();
    let (layer_text, vk_text) = display_strings(&state);
    assert_eq!(layer_text, "B");
    assert_eq!(vk_text, "V");

    let tooltip = tooltip_text(&state);
    assert!(tooltip.contains("Layer:"));
}

#[test]
fn test_sni_tooltip_includes_virtual_keys() {
    let initial = snapshot("base", vec![], LayerSource::External);
    let mut state = SniIndicatorState::new(initial, true);

    let focus_status = snapshot("browser", vec!["vk_browser", "vk_media"], LayerSource::Focus);
    state.update_status(focus_status);
    let tooltip = tooltip_text(&state);
    assert!(tooltip.contains("Layer: browser"));
    assert!(tooltip.contains("vk_browser"));
    assert!(tooltip.contains("vk_media"));
}

#[test]
fn test_resolve_sni_focus_only_override_skips_gsettings() {
    let value = resolve_sni_focus_only(Some(TrayFocusOnly::True), Some(false));
    assert!(value);
    assert!(!resolve_sni_focus_only(None, Some(false)));
    assert!(resolve_sni_focus_only(None, None));
}

#[test]
fn test_paused_status_resets_virtual_keys_and_source() {
    let mut status_broadcaster = StatusBroadcaster::new();
    status_broadcaster.update_layer("external".to_string(), LayerSource::External);
    status_broadcaster.update_virtual_keys(vec!["vk_browser".to_string()]);
    status_broadcaster.set_paused_status("base".to_string());
    let snapshot = status_broadcaster.snapshot();
    assert_eq!(snapshot.layer, "base");
    assert!(snapshot.virtual_keys.is_empty());
    assert_eq!(snapshot.layer_source, LayerSource::External);
}

#[test]
fn test_status_broadcaster_suppresses_no_op_updates() {
    let mut status = StatusBroadcaster::new();
    assert!(status.update_layer("base".to_string(), LayerSource::External));
    assert!(!status.update_layer("base".to_string(), LayerSource::External));
    assert!(status.update_layer("base".to_string(), LayerSource::Focus));
    assert!(status.update_virtual_keys(vec!["vk1".to_string()]));
    assert!(!status.update_virtual_keys(vec!["vk1".to_string()]));
    // The focus-layer update suppresses equal snapshots too.
    assert!(status.update_focus_layer("browser".to_string()));
    assert!(!status.update_focus_layer("browser".to_string()));
    assert!(status.update_focus_layer("nav".to_string()));
}

#[test]
fn test_menu_revision_wraps() {
    let initial = snapshot("base", vec![], LayerSource::External);
    let mut state = SniIndicatorState::new(initial, true);
    state.bump_menu_revision();
    assert_eq!(state.menu_revision, 1);
    state.menu_revision = u64::MAX;
    state.bump_menu_revision();
    assert_eq!(state.menu_revision, 0);
}
