use kanata_switcher::coordination::{
    execute_focus_actions, extract_focus_layer, handle_focus_event, native_terminal_window,
    pause_daemon, unpause_begin, update_status_for_focus,
};
use kanata_switcher::engine::KanataClient;
use kanata_switcher::evaluator::FocusHandler;
use kanata_switcher::status::{LayerSource, PauseBroadcaster, StatusBroadcaster};
use kanata_switcher::window::{FocusAction, Rule, WindowInfo};

fn win(class: &str, title: &str) -> WindowInfo {
    WindowInfo {
        class: class.to_string(),
        title: title.to_string(),
        is_native_terminal: false,
    }
}

fn rule(class: &str, layer: Option<&str>, vk: Option<&str>) -> Rule {
    Rule {
        class: Some(class.to_string()),
        title: None,
        on_native_terminal: None,
        layer: layer.map(String::from),
        virtual_key: vk.map(String::from),
        raw_vk_action: None,
        fallthrough: false,
    }
}

fn connected_client() -> KanataClient {
    let mut kanata = KanataClient::new("127.0.0.1", 10000, None);
    kanata.apply_connected(Some("default".to_string()), Vec::new());
    kanata
}

fn change(layer: &str) -> String {
    format!("{{\"ChangeLayer\":{{\"new\":\"{}\"}}}}", layer)
}

fn act(name: &str, action: &str) -> String {
    format!(
        "{{\"ActOnFakeKey\":{{\"name\":\"{}\",\"action\":\"{}\"}}}}",
        name, action
    )
}

#[test]
fn test_scenario_simple_layer_map() {
    let rules = vec![
        rule("firefox", Some("browser"), None),
        rule("kitty", Some("terminal"), None),
    ];
    let mut handler = FocusHandler::new(rules, None);
    let mut kanata = connected_client();

    let actions = handler.handle(&win("firefox", "GitHub"), "default").unwrap();
    let lines = execute_focus_actions(&mut kanata, &actions);
    assert_eq!(lines, vec![change("browser")]);

    let actions = handler.handle(&win("kitty", "bash"), "default").unwrap();
    let lines = execute_focus_actions(&mut kanata, &actions);
    assert_eq!(lines, vec![change("terminal")]);
}

#[test]
fn test_scenario_held_virtual_key() {
    let rules = vec![rule("firefox", Some("browser"), Some("vk_browser"))];
    let mut handler = FocusHandler::new(rules, None);
    let mut kanata = connected_client();

    let actions = handler.handle(&win("firefox", ""), "default").unwrap();
    let lines = execute_focus_actions(&mut kanata, &actions);
    assert_eq!(lines, vec![change("browser"), act("vk_browser", "Press")]);

    let actions = handler.handle(&win("", ""), "default").unwrap();
    let lines = execute_focus_actions(&mut kanata, &actions);
    assert_eq!(lines, vec![act("vk_browser", "Release"), change("default")]);
}

#[test]
fn test_scenario_fallthrough() {
    let rules = vec![
        Rule {
            class: Some("kitty".to_string()),
            title: None,
            on_native_terminal: None,
            layer: Some("browser".to_string()),
            virtual_key: None,
            raw_vk_action: Some(vec![("vk_notify".to_string(), "Tap".to_string())]),
            fallthrough: true,
        },
        rule("kitty", Some("terminal"), None),
    ];
    let mut handler = FocusHandler::new(rules, None);
    let mut kanata = connected_client();

    let actions = handler.handle(&win("kitty", ""), "default").unwrap();
    let lines = execute_focus_actions(&mut kanata, &actions);
    assert_eq!(
        lines,
        vec![change("browser"), act("vk_notify", "Tap"), change("terminal")]
    );
}

#[test]
fn test_scenario_pause_while_vk_held() {
    let rules = vec![rule("firefox", Some("browser"), Some("vk_browser"))];
    let mut handler = FocusHandler::new(rules, None);
    let mut kanata = connected_client();
    let mut pause = PauseBroadcaster::new();
    let mut status = StatusBroadcaster::new();

    let actions = handler.handle(&win("firefox", ""), "default").unwrap();
    let lines = execute_focus_actions(&mut kanata, &actions);
    assert_eq!(lines, vec![change("browser"), act("vk_browser", "Press")]);

    let (proceeded, lines) = pause_daemon(&mut pause, &mut handler, &mut status, &mut kanata);
    assert!(proceeded);
    assert_eq!(lines, vec![act("vk_browser", "Release"), change("default")]);
    assert!(!kanata.connected);
    assert!(kanata.paused);
    assert!(handler.current_virtual_keys().is_empty());
    let snapshot = status.snapshot();
    assert_eq!(snapshot.layer, "default");
    assert!(snapshot.virtual_keys.is_empty());
    assert_eq!(snapshot.layer_source, LayerSource::External);

    // A second pause request does not transition and changes nothing.
    let (proceeded, lines) = pause_daemon(&mut pause, &mut handler, &mut status, &mut kanata);
    assert!(!proceeded);
    assert!(lines.is_empty());
}

#[test]
fn test_scenario_pause_blocks_focus() {
    let rules = vec![rule("firefox", Some("browser"), Some("vk_browser"))];
    let mut handler = FocusHandler::new(rules, None);
    let mut kanata = connected_client();
    let mut pause = PauseBroadcaster::new();
    let mut status = StatusBroadcaster::new();

    let (proceeded, lines) = pause_daemon(&mut pause, &mut handler, &mut status, &mut kanata);
    assert!(proceeded);
    // The engine already sits on its default layer, so nothing is sent.
    assert_eq!(lines, Vec::<String>::new());

    let (actions, _, _) = handle_focus_event(
        &mut handler,
        &mut status,
        &pause,
        &win("firefox", ""),
        &kanata,
        "default",
    );
    assert!(actions.is_none());
}

#[test]
fn test_scenario_partial_vk_carryover() {
    let rules = vec![
        Rule {
            class: Some("app".to_string()),
            title: Some("both".to_string()),
            on_native_terminal: None,
            layer: None,
            virtual_key: Some("vk1".to_string()),
            raw_vk_action: None,
            fallthrough: true,
        },
        Rule {
            class: Some("app".to_string()),
            title: None,
            on_native_terminal: None,
            layer: None,
            virtual_key: Some("vk2".to_string()),
            raw_vk_action: None,
            fallthrough: false,
        },
    ];
    let mut handler = FocusHandler::new(rules, None);
    let mut kanata = connected_client();

    let actions = handler.handle(&win("app", "both"), "default").unwrap();
    let lines = execute_focus_actions(&mut kanata, &actions);
    assert_eq!(lines, vec![act("vk1", "Press"), act("vk2", "Press")]);

    let actions = handler.handle(&win("app", "other"), "default").unwrap();
    let lines = execute_focus_actions(&mut kanata, &actions);
    assert_eq!(lines, vec![act("vk1", "Release")]);
}

#[test]
fn test_pause_while_disconnected_sends_nothing_but_still_resets() {
    let rules = vec![rule("firefox", Some("browser"), Some("vk_browser"))];
    let mut handler = FocusHandler::new(rules, None);
    let mut kanata = KanataClient::new("127.0.0.1", 10000, Some("default".to_string()));
    let mut pause = PauseBroadcaster::new();
    let mut status = StatusBroadcaster::new();

    // A focus event while disconnected holds the key in the evaluator
    // but cannot send anything.
    let actions = handler.handle(&win("firefox", ""), "default").unwrap();
    let lines = execute_focus_actions(&mut kanata, &actions);
    assert!(lines.is_empty());
    assert_eq!(handler.current_virtual_keys(), vec!["vk_browser".to_string()]);

    let (proceeded, lines) = pause_daemon(&mut pause, &mut handler, &mut status, &mut kanata);
    assert!(proceeded);
    assert!(lines.is_empty());
    assert!(handler.current_virtual_keys().is_empty());
    assert!(kanata.paused);
    assert_eq!(status.snapshot().layer, "default");
}

#[test]
fn test_pause_then_unpause_matches_fresh_daemon() {
    let rules = vec![rule("firefox", Some("browser"), Some("vk_browser"))];
    let mut handler = FocusHandler::new(rules.clone(), None);
    let mut kanata = connected_client();
    let mut pause = PauseBroadcaster::new();
    let mut status = StatusBroadcaster::new();

    // Drive a focus event, pause, then unpause and reconnect with the
    // same handshake a fresh daemon would see.
    handler.handle(&win("firefox", ""), "default").unwrap();
    pause_daemon(&mut pause, &mut handler, &mut status, &mut kanata);
    assert!(unpause_begin(&mut pause, &mut kanata));
    kanata.apply_connected(Some("default".to_string()), Vec::new());

    let mut fresh_handler = FocusHandler::new(rules, None);
    let mut fresh_kanata = connected_client();

    let resumed = handler.handle(&win("firefox", ""), "default").unwrap();
    let fresh = fresh_handler.handle(&win("firefox", ""), "default").unwrap();
    assert_eq!(resumed, fresh);
    assert_eq!(
        execute_focus_actions(&mut kanata, &resumed),
        execute_focus_actions(&mut fresh_kanata, &fresh)
    );
    assert_eq!(kanata.current_layer, fresh_kanata.current_layer);
    assert_eq!(kanata.known_layers, fresh_kanata.known_layers);
    assert_eq!(kanata.pending_layer, fresh_kanata.pending_layer);
    assert_eq!(kanata.connected, fresh_kanata.connected);
    assert_eq!(kanata.paused, fresh_kanata.paused);
}

#[test]
fn test_held_keys_match_returned_list_after_each_event() {
    let rules = vec![
        rule("firefox", Some("browser"), Some("vk_browser")),
        rule("kitty", Some("terminal"), Some("vk_terminal")),
    ];
    let mut handler = FocusHandler::new(rules, None);
    for w in [win("firefox", ""), win("kitty", ""), win("", "")] {
        if let Some(actions) = handler.handle(&w, "default") {
            assert_eq!(handler.current_virtual_keys(), actions.new_managed_vks);
        }
    }
}

#[test]
fn test_vk_named_once_per_action_list() {
    let rules = vec![
        rule("app", None, Some("vk1")),
        rule("other", None, Some("vk2")),
    ];
    let mut handler = FocusHandler::new(rules, None);
    handler.handle(&win("app", ""), "default").unwrap();
    let actions = handler.handle(&win("other", ""), "default").unwrap();
    let presses = actions
        .actions
        .iter()
        .filter(|a| matches!(a, FocusAction::PressVk(n) if n == "vk2"))
        .count();
    let releases = actions
        .actions
        .iter()
        .filter(|a| matches!(a, FocusAction::ReleaseVk(n) if n == "vk1"))
        .count();
    assert_eq!(presses, 1);
    assert_eq!(releases, 1);
}

#[test]
fn test_native_terminal_releases_in_reverse_and_uses_default() {
    let rules = vec![
        Rule {
            class: Some("app".to_string()),
            title: None,
            on_native_terminal: None,
            layer: None,
            virtual_key: Some("vk1".to_string()),
            raw_vk_action: None,
            fallthrough: true,
        },
        Rule {
            class: Some("app".to_string()),
            title: None,
            on_native_terminal: None,
            layer: Some("applayer".to_string()),
            virtual_key: Some("vk2".to_string()),
            raw_vk_action: None,
            fallthrough: false,
        },
    ];
    let mut handler = FocusHandler::new(rules, None);
    handler.handle(&win("app", ""), "default").unwrap();

    let actions = handler.handle(&native_terminal_window(), "default").unwrap();
    assert_eq!(
        actions.actions,
        vec![
            FocusAction::ReleaseVk("vk2".to_string()),
            FocusAction::ReleaseVk("vk1".to_string()),
            FocusAction::ChangeLayer("default".to_string()),
        ]
    );
    assert!(handler.current_virtual_keys().is_empty());
}

#[test]
fn test_update_status_for_focus_updates_snapshot() {
    let rules = vec![rule("firefox", Some("browser"), None)];
    let mut handler = FocusHandler::new(rules, None);
    let mut status = StatusBroadcaster::new();
    let kanata = KanataClient::new("127.0.0.1", 10000, None);

    let (actions, _, focus_published) = update_status_for_focus(
        &mut handler,
        &mut status,
        &win("firefox", ""),
        &kanata,
        "default",
    );
    assert!(actions.is_some());
    assert!(focus_published);

    let snapshot = status.snapshot();
    assert_eq!(snapshot.layer, "browser");
    assert_eq!(snapshot.layer_source, LayerSource::Focus);
}

#[test]
fn test_update_status_for_focus_unknown_layer_uses_default() {
    let rules = vec![rule("firefox", Some("browser"), None)];
    let mut handler = FocusHandler::new(rules, None);
    let mut status = StatusBroadcaster::new();
    let mut kanata = KanataClient::new("127.0.0.1", 10000, Some("default".to_string()));
    kanata.apply_connected(None, vec!["default".to_string()]);

    let (actions, _, _) = update_status_for_focus(
        &mut handler,
        &mut status,
        &win("firefox", ""),
        &kanata,
        "default",
    );
    assert!(actions.is_some());

    let snapshot = status.snapshot();
    assert_eq!(snapshot.layer, "default");
    assert_eq!(snapshot.layer_source, LayerSource::Focus);
}

#[test]
fn test_handle_focus_event_ignored_when_paused_no_status_change() {
    let rules = vec![rule("firefox", Some("browser"), None)];
    let mut handler = FocusHandler::new(rules, None);
    let mut status = StatusBroadcaster::new();
    let mut pause = PauseBroadcaster::new();
    let kanata = KanataClient::new("127.0.0.1", 10000, None);

    pause.set_paused(true);
    let (actions, _, _) = handle_focus_event(
        &mut handler,
        &mut status,
        &pause,
        &win("firefox", ""),
        &kanata,
        "default",
    );
    assert!(actions.is_none());
    assert!(status.snapshot().layer.is_empty());

    pause.set_paused(false);
    let (actions, _, _) = handle_focus_event(
        &mut handler,
        &mut status,
        &pause,
        &win("firefox", ""),
        &kanata,
        "default",
    );
    assert!(actions.is_some());
    let snapshot = status.snapshot();
    assert_eq!(snapshot.layer, "browser");
    assert_eq!(snapshot.layer_source, LayerSource::Focus);
}

#[test]
fn test_handle_focus_event_unfocus_paused_does_not_switch_layer() {
    let rules = vec![rule("firefox", Some("browser"), None)];
    let mut handler = FocusHandler::new(rules, None);
    let mut status = StatusBroadcaster::new();
    let mut pause = PauseBroadcaster::new();
    let kanata = KanataClient::new("127.0.0.1", 10000, None);

    status.update_layer("current".to_string(), LayerSource::External);
    pause.set_paused(true);

    let (actions, _, _) = handle_focus_event(
        &mut handler,
        &mut status,
        &pause,
        &win("", ""),
        &kanata,
        "default",
    );
    assert!(actions.is_none());
    let snapshot = status.snapshot();
    assert_eq!(snapshot.layer, "current");
    assert_eq!(snapshot.layer_source, LayerSource::External);
}

#[test]
fn test_extract_focus_layer_takes_last_change() {
    let actions = kanata_switcher::window::FocusActions {
        actions: vec![
            FocusAction::ChangeLayer("one".to_string()),
            FocusAction::PressVk("vk".to_string()),
            FocusAction::ChangeLayer("two".to_string()),
            FocusAction::RawVkAction("raw".to_string(), "Tap".to_string()),
        ],
        new_managed_vks: vec![],
    };
    assert_eq!(extract_focus_layer(&actions), Some("two".to_string()));
}
