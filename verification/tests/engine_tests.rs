use kanata_switcher::engine::{
    connect_retry_delay_ms, reconnect_delay_ms, ChangeLayerOutcome, KanataClient,
};

fn connected(names: Vec<&str>) -> KanataClient {
    let mut c = KanataClient::new("127.0.0.1", 10000, None);
    c.apply_connected(
        Some("default".to_string()),
        names.into_iter().map(String::from).collect(),
    );
    c
}

#[test]
fn test_known_layers_are_what_change_layer_validates_against() {
    let mut c = connected(vec!["default", "browser", "nav"]);
    assert_eq!(
        c.known_layers,
        vec![
            "default".to_string(),
            "browser".to_string(),
            "nav".to_string()
        ]
    );
    // An announced name resolves to itself and is sent as itself.
    assert_eq!(
        c.resolve_layer_name("browser"),
        Some("browser".to_string())
    );
    match c.change_layer("browser") {
        ChangeLayerOutcome::Send(line) => {
            assert_eq!(line, "{\"ChangeLayer\":{\"new\":\"browser\"}}")
        }
        other => panic!("expected a send, got {:?}", other),
    }
}

#[test]
fn test_unknown_layer_substitutes_default_and_never_sends_it() {
    let mut c = connected(vec!["default", "browser"]);
    c.change_layer("browser");
    // The unknown name resolves to the default; the line sent names the
    // default, never the unknown layer.
    match c.change_layer("mystery") {
        ChangeLayerOutcome::Send(line) => {
            assert_eq!(line, "{\"ChangeLayer\":{\"new\":\"default\"}}")
        }
        other => panic!("expected a send, got {:?}", other),
    }
    // Already on the default: the unknown name sends nothing at all.
    assert_eq!(c.change_layer("mystery"), ChangeLayerOutcome::AlreadyCurrent);
}

#[test]
fn test_empty_known_layers_accepts_any_name() {
    let mut c = connected(vec![]);
    match c.change_layer("anything") {
        ChangeLayerOutcome::Send(line) => {
            assert_eq!(line, "{\"ChangeLayer\":{\"new\":\"anything\"}}")
        }
        other => panic!("expected a send, got {:?}", other),
    }
}

#[test]
fn test_layer_change_while_paused_is_dropped() {
    let mut c = connected(vec![]);
    c.pause_disconnect();
    let before = c.current_layer.clone();
    let changed = c.observe_layer_change("external");
    assert!(!changed);
    assert_eq!(c.current_layer, before);
}

#[test]
fn test_layer_change_while_running_updates_and_broadcasts() {
    let mut c = connected(vec![]);
    assert!(c.observe_layer_change("external"));
    assert_eq!(c.current_layer, Some("external".to_string()));
    // The same layer again changes nothing, so nothing is broadcast.
    assert!(!c.observe_layer_change("external"));
}

#[test]
fn test_change_layer_deferred_while_disconnected() {
    let mut c = KanataClient::new("127.0.0.1", 10000, None);
    assert_eq!(c.change_layer("nav"), ChangeLayerOutcome::Deferred);
    assert_eq!(c.take_pending_layer(), Some("nav".to_string()));
    // The pending layer is consumed exactly once.
    assert_eq!(c.take_pending_layer(), None);
}

#[test]
fn test_act_on_fake_key_never_queued() {
    let disconnected = KanataClient::new("127.0.0.1", 10000, None);
    assert_eq!(disconnected.act_on_fake_key("vk", "Press"), None);
    let c = connected(vec![]);
    assert_eq!(
        c.act_on_fake_key("vk", "Tap"),
        Some("{\"ActOnFakeKey\":{\"name\":\"vk\",\"action\":\"Tap\"}}".to_string())
    );
}

#[test]
fn test_pause_disconnect_clears_learned_state() {
    let mut c = connected(vec!["default", "browser"]);
    c.change_layer("browser");
    c.pause_disconnect();
    assert!(c.paused);
    assert!(!c.connected);
    assert_eq!(c.current_layer, None);
    assert_eq!(c.auto_default_layer, None);
    assert_eq!(c.pending_layer, None);
    assert!(c.known_layers.is_empty());
}

#[test]
fn test_config_default_wins_over_announced() {
    let mut c = KanataClient::new("127.0.0.1", 10000, Some("cfg".to_string()));
    c.apply_connected(Some("announced".to_string()), Vec::new());
    assert_eq!(c.default_layer(), Some("cfg".to_string()));
    assert_eq!(c.default_layer_sync(), "cfg");
    let auto_only = connected(vec![]);
    assert_eq!(auto_only.default_layer(), Some("default".to_string()));
}

#[test]
fn test_switch_to_default_if_connected() {
    let mut c = connected(vec![]);
    // Already on the default layer: nothing to send.
    assert_eq!(c.switch_to_default_if_connected_sync(), None);
    c.observe_layer_change("other");
    assert_eq!(
        c.switch_to_default_if_connected_sync(),
        Some("{\"ChangeLayer\":{\"new\":\"default\"}}".to_string())
    );
    c.on_disconnect();
    assert_eq!(c.switch_to_default_if_connected_sync(), None);
}

#[test]
fn test_disconnect_wants_reconnect_unless_paused() {
    let mut c = connected(vec![]);
    assert!(c.on_disconnect());
    let mut p = connected(vec![]);
    p.pause_disconnect();
    assert!(!p.on_disconnect());
}

#[test]
fn test_backoff_schedules() {
    assert_eq!(connect_retry_delay_ms(0), 0);
    assert_eq!(connect_retry_delay_ms(1), 1000);
    assert_eq!(connect_retry_delay_ms(2), 2000);
    assert_eq!(connect_retry_delay_ms(3), 5000);
    assert_eq!(connect_retry_delay_ms(9), 5000);
    assert_eq!(reconnect_delay_ms(0), 1000);
    assert_eq!(reconnect_delay_ms(1), 2000);
    assert_eq!(reconnect_delay_ms(2), 5000);
    assert_eq!(reconnect_delay_ms(7), 5000);
}
