use nu_plugin_ws::errors::WsError;
use nu_plugin_ws::headers::{
    build_handshake_headers, request_headers, FlexValue, HeaderError, HeaderMap,
};
use nu_plugin_ws::plugin::{log_level_for, LogLevel, WebSocket, WebSocketPlugin};
use nu_plugin_ws::target::{origin_for_url, origin_header_value, validate_request};

#[test]
fn origin_value_has_the_fixed_shape() {
    let origin = origin_header_value(&"ws".to_string(), &"example.com".to_string(), 8080);
    assert_eq!(origin, "ws://example.com:8080".to_string());
    let bare = origin_header_value(&"wss".to_string(), &"".to_string(), 0);
    assert_eq!(bare, "wss://:0".to_string());
}

#[test]
fn handshake_carries_origin_alongside_supplied_headers() {
    let mut custom = HeaderMap::new();
    custom.insert("Authorization".to_string(), "Bearer X".to_string());
    let list = build_handshake_headers("ws://example.com:0".to_string(), &custom);
    assert_eq!(list.len(), 2);
    assert_eq!(list[0].0, "Origin".to_string());
    assert_eq!(list[0].1, "ws://example.com:0".to_string());
    assert_eq!(list[1].0, "Authorization".to_string());
    assert_eq!(list[1].1, "Bearer X".to_string());
}

#[test]
fn header_map_resolves_duplicates_by_last_write_wins() {
    let mut map = HeaderMap::new();
    map.insert("k".to_string(), "first".to_string());
    map.insert("k".to_string(), "second".to_string());
    assert_eq!(map.len(), 1);
    assert_eq!(map.get(&"k".to_string()), Some(&"second".to_string()));
}

#[test]
fn flat_list_headers_read_in_pairs_with_coerced_values() {
    let list = FlexValue::List(vec![
        FlexValue::Str("k1".to_string()),
        FlexValue::Str("v1".to_string()),
        FlexValue::Str("k2".to_string()),
        FlexValue::Int(42),
        FlexValue::Str("odd tail is dropped".to_string()),
    ]);
    let map = request_headers(Some(list)).unwrap();
    assert_eq!(map.len(), 2);
    assert_eq!(map.get(&"k1".to_string()), Some(&"v1".to_string()));
    assert_eq!(map.get(&"k2".to_string()), Some(&"42".to_string()));
}

#[test]
fn single_row_table_contributes_its_fields() {
    let table = FlexValue::List(vec![FlexValue::Record(vec![(
        "Accept".to_string(),
        FlexValue::Str("text/plain".to_string()),
    )])]);
    let map = request_headers(Some(table)).unwrap();
    assert_eq!(map.len(), 1);
    assert_eq!(map.get(&"Accept".to_string()), Some(&"text/plain".to_string()));
}

#[test]
fn numeric_and_boolean_header_values_coerce_to_text() {
    let record = FlexValue::Record(vec![
        ("retries".to_string(), FlexValue::Int(-3)),
        ("fast".to_string(), FlexValue::Bool(true)),
    ]);
    let map = request_headers(Some(record)).unwrap();
    assert_eq!(map.get(&"retries".to_string()), Some(&"-3".to_string()));
    assert_eq!(map.get(&"fast".to_string()), Some(&"true".to_string()));
}

#[test]
fn a_later_unconvertible_value_hides_the_key() {
    let record = FlexValue::Record(vec![
        ("k".to_string(), FlexValue::Str("seen".to_string())),
        ("k".to_string(), FlexValue::Other),
    ]);
    let map = request_headers(Some(record)).unwrap();
    assert_eq!(map.len(), 0);
    assert_eq!(map.get(&"k".to_string()), None);
}

#[test]
fn unconvertible_header_shapes_are_rejected() {
    assert!(matches!(
        request_headers(Some(FlexValue::Str("no".to_string()))),
        Err(HeaderError::NotConvertible)
    ));
    // A one-element list whose element is no record.
    assert!(matches!(
        request_headers(Some(FlexValue::List(vec![FlexValue::Int(1)]))),
        Err(HeaderError::NotConvertible)
    ));
    // A pair key that does not convert to text.
    let bad_key = FlexValue::List(vec![
        FlexValue::Record(Vec::new()),
        FlexValue::Str("v".to_string()),
        FlexValue::Str("k".to_string()),
        FlexValue::Str("v".to_string()),
    ]);
    assert!(matches!(
        request_headers(Some(bad_key)),
        Err(HeaderError::NotConvertible)
    ));
}

#[test]
fn url_validation_accepts_ws_and_wss_only() {
    assert!(validate_request("ws://example.com".to_string()).is_ok());
    assert!(validate_request("wss://example.com:9443/path".to_string()).is_ok());
    assert!(matches!(
        validate_request("http://example.com".to_string()),
        Err(WsError::UnsupportedScheme)
    ));
    assert!(matches!(
        validate_request("".to_string()),
        Err(WsError::MalformedUrl)
    ));
    assert!(matches!(
        validate_request("example.com/ws".to_string()),
        Err(WsError::MalformedUrl)
    ));
    assert!(matches!(
        validate_request("ws://[invalid".to_string()),
        Err(WsError::MalformedUrl)
    ));
}

#[test]
fn scheme_comparison_sees_the_parsers_lower_casing() {
    // The URL parser lower-cases the scheme, so the scheme check accepts
    // upper-case spellings of ws and wss.
    assert!(validate_request("WS://EXAMPLE.COM".to_string()).is_ok());
    assert!(validate_request("WSS://example.com".to_string()).is_ok());
}

#[test]
fn parsed_url_keeps_the_raw_string_and_its_parts() {
    let (raw, parsed) = validate_request("ws://example.com:9999/x".to_string()).unwrap();
    assert_eq!(raw, "ws://example.com:9999/x".to_string());
    assert_eq!(parsed.scheme, "ws".to_string());
    assert_eq!(parsed.host, Some("example.com".to_string()));
    assert_eq!(parsed.port, Some(9999));
}

#[test]
fn origin_is_synthesized_from_the_urls_own_parts() {
    let (_, parsed) = validate_request("ws://example.com:9001".to_string()).unwrap();
    assert_eq!(origin_for_url(&parsed), "ws://example.com:9001".to_string());
    // A URL with no explicit port synthesizes port 0, and one whose port is
    // the scheme's default reads as having none.
    let (_, bare) = validate_request("ws://example.com".to_string()).unwrap();
    assert_eq!(origin_for_url(&bare), "ws://example.com:0".to_string());
}

#[test]
fn plugin_descriptors_are_fixed() {
    assert_eq!(WebSocketPlugin.version(), "0.3.2".to_string());
    assert_eq!(WebSocketPlugin.commands().len(), 1);
    assert_eq!(WebSocket.name(), "ws".to_string());
    assert_eq!(
        WebSocket.description(),
        "connect to a websocket, send optional input data, and stream output".to_string()
    );
}

#[test]
fn verbose_levels_map_as_documented() {
    assert!(matches!(log_level_for(None), LogLevel::ErrorOnly));
    assert!(matches!(log_level_for(Some(0)), LogLevel::ErrorOnly));
    assert!(matches!(log_level_for(Some(1)), LogLevel::Warn));
    assert!(matches!(log_level_for(Some(2)), LogLevel::Info));
    assert!(matches!(log_level_for(Some(3)), LogLevel::Debug));
    assert!(matches!(log_level_for(Some(4)), LogLevel::Trace));
    assert!(matches!(log_level_for(Some(10)), LogLevel::Info));
    assert!(matches!(log_level_for(Some(-1)), LogLevel::Info));
}

#[test]
fn every_failure_has_a_fixed_description() {
    assert_eq!(
        WsError::UnsupportedScheme.describe(),
        "URL scheme must be ws or wss".to_string()
    );
    assert_eq!(
        WsError::ConnectFailure.describe(),
        "failed to connect to the WebSocket".to_string()
    );
    assert_eq!(
        WsError::ReadInterrupted.describe(),
        "read interrupted".to_string()
    );
    assert_eq!(
        WsError::LockFailure.describe(),
        "failed to lock the WebSocket".to_string()
    );
    assert_eq!(
        WsError::SendFailure.describe(),
        "failed to send the WebSocket message".to_string()
    );
    assert_eq!(
        WsError::MalformedInput.describe(),
        "input must be string or binary".to_string()
    );
    assert_eq!(
        WsError::MalformedUrl.describe(),
        "incomplete or incorrect URL".to_string()
    );
}
