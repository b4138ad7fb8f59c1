use kanata_switcher::codec::{
    encode_act_on_fake_key, encode_change_layer, encode_request_layer_names, parse_engine_line,
    EngineMsg,
};

#[test]
fn test_encode_change_layer_line() {
    assert_eq!(
        encode_change_layer("browser"),
        "{\"ChangeLayer\":{\"new\":\"browser\"}}"
    );
}

#[test]
fn test_encode_request_layer_names_line() {
    assert_eq!(encode_request_layer_names(), "{\"RequestLayerNames\":{}}");
}

#[test]
fn test_encode_act_on_fake_key_line() {
    assert_eq!(
        encode_act_on_fake_key("vk_browser", "Press"),
        "{\"ActOnFakeKey\":{\"name\":\"vk_browser\",\"action\":\"Press\"}}"
    );
}

#[test]
fn test_encode_escapes_specials() {
    assert_eq!(
        encode_change_layer("a\"b\\c"),
        "{\"ChangeLayer\":{\"new\":\"a\\\"b\\\\c\"}}"
    );
    assert_eq!(
        encode_change_layer("a\nb\tc"),
        "{\"ChangeLayer\":{\"new\":\"a\\nb\\tc\"}}"
    );
    assert_eq!(
        encode_change_layer("a\u{1}b"),
        "{\"ChangeLayer\":{\"new\":\"a\\u0001b\"}}"
    );
    assert_eq!(
        encode_change_layer("a\u{8}b\u{c}c\rd"),
        "{\"ChangeLayer\":{\"new\":\"a\\bb\\fc\\rd\"}}"
    );
}

#[test]
fn test_parse_control_escapes() {
    let msg = parse_engine_line("{\"LayerChange\":{\"new\":\"a\\bb\\fc\\u0001d\"}}");
    assert_eq!(
        msg,
        EngineMsg::LayerChange("a\u{8}b\u{c}c\u{1}d".to_string())
    );
    // A non-canonical escape for a character with a short form is
    // dropped as protocol-unexpected.
    assert_eq!(
        parse_engine_line("{\"LayerChange\":{\"new\":\"a\\u0008b\"}}"),
        EngineMsg::Other
    );
}

#[test]
fn test_parse_layer_change() {
    let msg = parse_engine_line("{\"LayerChange\":{\"new\":\"base\"}}");
    assert_eq!(msg, EngineMsg::LayerChange("base".to_string()));
}

#[test]
fn test_parse_layer_change_with_escapes() {
    let msg = parse_engine_line("{\"LayerChange\":{\"new\":\"a\\nb\\\"c\\\\d\"}}");
    assert_eq!(msg, EngineMsg::LayerChange("a\nb\"c\\d".to_string()));
}

#[test]
fn test_parse_layer_names() {
    let msg = parse_engine_line("{\"LayerNames\":{\"names\":[\"base\",\"browser\",\"nav\"]}}");
    assert_eq!(
        msg,
        EngineMsg::LayerNames(vec![
            "base".to_string(),
            "browser".to_string(),
            "nav".to_string()
        ])
    );
}

#[test]
fn test_parse_layer_names_empty() {
    let msg = parse_engine_line("{\"LayerNames\":{\"names\":[]}}");
    assert_eq!(msg, EngineMsg::LayerNames(Vec::new()));
}

#[test]
fn test_parse_unknown_envelope_is_dropped() {
    assert_eq!(
        parse_engine_line("{\"CurrentLayerInfo\":{\"name\":\"base\"}}"),
        EngineMsg::Other
    );
    assert_eq!(parse_engine_line(""), EngineMsg::Other);
    assert_eq!(parse_engine_line("not json at all"), EngineMsg::Other);
    assert_eq!(
        parse_engine_line("{\"LayerChange\":{\"new\":\"unterminated"),
        EngineMsg::Other
    );
}

#[test]
fn test_encode_parse_round_trip() {
    // An outgoing ChangeLayer and an incoming LayerChange share their
    // payload encoding; swap the key to close the loop.
    let line = encode_change_layer("spell\tcheck\u{2}");
    let incoming = line.replace("ChangeLayer", "LayerChange");
    assert_eq!(
        parse_engine_line(&incoming),
        EngineMsg::LayerChange("spell\tcheck\u{2}".to_string())
    );
}
