use kanata_switcher::logind::{
    decode_logind_object_path_reply, is_logind_empty_object_path, is_logind_no_session_error,
    is_valid_object_path, parse_logind_object_path, BusReplyBody, BusValue,
};

#[test]
fn test_logind_no_session_error_detection() {
    assert!(is_logind_no_session_error(
        "org.freedesktop.login1.NoSessionForPID"
    ));
}

#[test]
fn test_logind_no_session_error_detection_false() {
    assert!(!is_logind_no_session_error(
        "org.freedesktop.login1.NoSuchSession"
    ));
}

#[test]
fn test_logind_empty_object_path_detection() {
    assert!(is_logind_empty_object_path("/"));
    assert!(!is_logind_empty_object_path(
        "/org/freedesktop/login1/session/_1"
    ));
}

#[test]
fn test_parse_logind_object_path_value() {
    let value = BusValue::Path("/org/freedesktop/login1/session/_1".to_string());
    let parsed = parse_logind_object_path(&value).unwrap();
    assert_eq!(parsed.as_str(), "/org/freedesktop/login1/session/_1");
}

#[test]
fn test_parse_logind_object_path_structure_single_field() {
    let value = BusValue::Structure(vec![BusValue::Path(
        "/org/freedesktop/login1/session/_1".to_string(),
    )]);
    let parsed = parse_logind_object_path(&value).unwrap();
    assert_eq!(parsed.as_str(), "/org/freedesktop/login1/session/_1");
}

#[test]
fn test_parse_logind_object_path_string() {
    let value = BusValue::Text("/org/freedesktop/login1/session/_1".to_string());
    let parsed = parse_logind_object_path(&value).unwrap();
    assert_eq!(parsed.as_str(), "/org/freedesktop/login1/session/_1");
}

#[test]
fn test_decode_logind_object_path_reply_object_path() {
    let reply = BusReplyBody::Path("/org/freedesktop/login1/session/_1".to_string());
    let parsed = decode_logind_object_path_reply(&reply).unwrap();
    assert_eq!(parsed.as_str(), "/org/freedesktop/login1/session/_1");
}

#[test]
fn test_decode_logind_object_path_reply_structure() {
    let reply = BusReplyBody::Structure(vec![BusValue::Path(
        "/org/freedesktop/login1/session/_1".to_string(),
    )]);
    let parsed = decode_logind_object_path_reply(&reply).unwrap();
    assert_eq!(parsed.as_str(), "/org/freedesktop/login1/session/_1");
}

#[test]
fn test_decode_logind_object_path_reply_structure_multi_field() {
    let reply = BusReplyBody::Structure(vec![
        BusValue::Text("11".to_string()),
        BusValue::Path("/org/freedesktop/login1/session/_311".to_string()),
    ]);
    let parsed = decode_logind_object_path_reply(&reply).unwrap();
    assert_eq!(parsed.as_str(), "/org/freedesktop/login1/session/_311");
}

#[test]
fn test_decode_logind_object_path_reply_variant() {
    let reply = BusReplyBody::Variant(BusValue::Path(
        "/org/freedesktop/login1/session/_1".to_string(),
    ));
    let parsed = decode_logind_object_path_reply(&reply).unwrap();
    assert_eq!(parsed.as_str(), "/org/freedesktop/login1/session/_1");
}

#[test]
fn test_structure_field_nested_variant_yields_path() {
    let reply = BusReplyBody::Structure(vec![
        BusValue::Other,
        BusValue::Wrapped(Box::new(BusValue::Path(
            "/org/freedesktop/login1/session/_2".to_string(),
        ))),
    ]);
    let parsed = decode_logind_object_path_reply(&reply).unwrap();
    assert_eq!(parsed.as_str(), "/org/freedesktop/login1/session/_2");
}

#[test]
fn test_object_path_validity() {
    assert!(is_valid_object_path("/"));
    assert!(is_valid_object_path("/org/freedesktop/login1/session/_1"));
    assert!(!is_valid_object_path(""));
    assert!(!is_valid_object_path("org/freedesktop"));
    assert!(!is_valid_object_path("/org//freedesktop"));
    assert!(!is_valid_object_path("/org/"));
    assert!(!is_valid_object_path("/org-unit"));
}

#[test]
fn test_parse_logind_object_path_rejects_bad_string() {
    let value = BusValue::Text("not a path".to_string());
    assert!(parse_logind_object_path(&value).is_err());
    let other = BusValue::Other;
    assert!(parse_logind_object_path(&other).is_err());
}
