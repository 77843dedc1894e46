//! The wire codec: composing requests and decoding response envelopes.
use editor_core::msg::{parse_response, IpcRequest};
use editor_core::json::is_value_str;
use editor_core::params::{bounds_params, empty_params, follow_params, owner_params, resize_params};
use editor_core::text::{i32_to_dec, u64_to_dec};

#[test]
fn encodes_a_plain_request() {
    let req = IpcRequest::new(
        String::from("1"),
        String::from("stats.get"),
        String::from("{}"),
    );
    assert_eq!(
        req.encode(),
        "{\"type\":\"request\",\"id\":\"1\",\"method\":\"stats.get\",\"params\":{}}"
    );
}

#[test]
fn encoded_requests_are_json_the_reference_parser_accepts() {
    let req = IpcRequest::new(
        String::from("7"),
        String::from("window.set_bounds"),
        String::from("{\"x\":-3,\"y\":10,\"width\":800,\"height\":600}"),
    );
    let wire = req.encode();
    let v: serde_json::Value = serde_json::from_str(&wire).expect("well-formed");
    assert_eq!(v["type"], "request");
    assert_eq!(v["id"], "7");
    assert_eq!(v["method"], "window.set_bounds");
    assert_eq!(v["params"]["x"], -3);
    assert_eq!(v["params"]["height"], 600);
}

#[test]
fn escapes_method_strings() {
    let req = IpcRequest::new(
        String::from("2"),
        String::from("say\"hi\"\\\n\t"),
        String::from("null"),
    );
    let wire = req.encode();
    assert_eq!(
        wire,
        "{\"type\":\"request\",\"id\":\"2\",\"method\":\"say\\\"hi\\\"\\\\\\n\\t\",\"params\":null}"
    );
    let v: serde_json::Value = serde_json::from_str(&wire).expect("well-formed");
    assert_eq!(v["method"], "say\"hi\"\\\n\t");
}

#[test]
fn escapes_control_characters_as_hex() {
    let req = IpcRequest::new(
        String::from("3"),
        String::from("a\u{01}b\u{1f}c"),
        String::from("0"),
    );
    let wire = req.encode();
    assert!(wire.contains("a\\u0001b\\u001Fc"));
    let v: serde_json::Value = serde_json::from_str(&wire).expect("well-formed");
    assert_eq!(v["method"], "a\u{01}b\u{1f}c");
}

#[test]
fn decodes_a_successful_response() {
    let r = parse_response("{\"type\":\"response\",\"id\":\"1\",\"success\":true,\"data\":{\"fps\":60.0}}")
        .expect("decodes");
    assert_eq!(r.msg_type, "response");
    assert_eq!(r.id, "1");
    assert!(r.success);
    assert_eq!(r.data.as_deref(), Some("{\"fps\":60.0}"));
    assert_eq!(r.error, None);
}

#[test]
fn decodes_fields_in_any_order_with_whitespace() {
    let r = parse_response(
        " { \"success\" : false , \"error\" : \"bad params\" , \"id\" : \"9\" , \"type\" : \"response\" } ",
    )
    .expect("decodes");
    assert_eq!(r.id, "9");
    assert!(!r.success);
    assert_eq!(r.error.as_deref(), Some("bad params"));
    assert_eq!(r.data, None);
}

#[test]
fn ignores_unknown_fields() {
    let r = parse_response(
        "{\"type\":\"response\",\"elapsed\":[1,2,3],\"id\":\"4\",\"success\":true,\"extra\":{\"a\":null}}",
    )
    .expect("decodes");
    assert_eq!(r.id, "4");
    assert!(r.success);
}

#[test]
fn keeps_the_raw_data_text() {
    let r = parse_response(
        "{\"type\":\"response\",\"id\":\"5\",\"success\":true,\"data\":[-1.5e3, {\"k\":\"v\"}, null]}",
    )
    .expect("decodes");
    assert_eq!(r.data.as_deref(), Some("[-1.5e3, {\"k\":\"v\"}, null]"));
}

#[test]
fn null_data_and_null_error_count_as_absent() {
    let r = parse_response(
        "{\"type\":\"response\",\"id\":\"6\",\"success\":true,\"data\":null,\"error\":null}",
    )
    .expect("decodes");
    assert_eq!(r.data, None);
    assert_eq!(r.error, None);
    assert_eq!(r.payload(), "{}");
    assert_eq!(r.failure_message(), "Unknown error");
}

#[test]
fn decodes_string_escapes_in_captured_fields() {
    let r = parse_response(
        "{\"type\":\"response\",\"id\":\"7\",\"success\":false,\"error\":\"line\\nbreak \\u0041 \\uD83D\\uDE00\"}",
    )
    .expect("decodes");
    assert_eq!(r.error.as_deref(), Some("line\nbreak A \u{1F600}"));
}

#[test]
fn rejects_malformed_texts() {
    assert!(parse_response("").is_none());
    assert!(parse_response("not json").is_none());
    assert!(parse_response("[1,2,3]").is_none());
    assert!(parse_response("{\"type\":\"response\",\"id\":\"1\"}").is_none()); // missing success
    assert!(parse_response("{\"id\":\"1\",\"success\":true}").is_none()); // missing type
    assert!(parse_response("{\"type\":\"response\",\"id\":1,\"success\":true}").is_none()); // id not a string
    assert!(parse_response("{\"type\":\"response\",\"id\":\"1\",\"success\":\"yes\"}").is_none());
    assert!(
        parse_response("{\"type\":\"response\",\"id\":\"1\",\"success\":true,\"id\":\"2\"}")
            .is_none()
    ); // duplicate field
    assert!(
        parse_response("{\"type\":\"response\",\"id\":\"1\",\"success\":true} trailing").is_none()
    );
    assert!(parse_response("{\"type\":\"response\",\"id\":\"1\",\"success\":true,}").is_none());
}

#[test]
fn rejection_agrees_with_the_reference_parser() {
    let cases = [
        "{\"type\":\"response\",\"id\":\"1\",\"success\":true,\"data\":{\"deep\":[[[1]]]}}",
        "{\"type\":\"response\",\"id\":\"1\",\"success\":true,\"data\":01}",
        "{\"type\":\"response\",\"id\":\"1\",\"success\":true,\"data\":1.}",
        "{\"type\":\"response\",\"id\":\"1\",\"success\":true,\"data\":\"\\q\"}",
        "{\"type\":\"response\",\"id\":\"1\",\"success\":true,\"data\":tru}",
    ];
    for text in cases {
        let mine = parse_response(text).is_some();
        let reference = serde_json::from_str::<serde_json::Value>(text).is_ok();
        assert_eq!(mine, reference, "disagree on {text}");
    }
}

#[test]
fn recognizes_complete_json_values() {
    assert!(is_value_str("{}"));
    assert!(is_value_str("  [1, 2, {\"a\": null}]  "));
    assert!(is_value_str("-12.5e-3"));
    assert!(is_value_str("\"text\""));
    assert!(is_value_str("true"));
    assert!(!is_value_str(""));
    assert!(!is_value_str("{\"a\":}"));
    assert!(!is_value_str("1 2"));
    assert!(!is_value_str("{\"a\":1"));
}

#[test]
fn renders_decimals() {
    assert_eq!(u64_to_dec(0), "0");
    assert_eq!(u64_to_dec(7), "7");
    assert_eq!(u64_to_dec(1203), "1203");
    assert_eq!(u64_to_dec(u64::MAX), "18446744073709551615");
    assert_eq!(i32_to_dec(0), "0");
    assert_eq!(i32_to_dec(-1), "-1");
    assert_eq!(i32_to_dec(i32::MIN), "-2147483648");
    assert_eq!(i32_to_dec(i32::MAX), "2147483647");
}

#[test]
fn window_command_parameters_are_exact() {
    assert_eq!(empty_params(), "{}");
    assert_eq!(resize_params(800, 600), "{\"height\":600,\"width\":800}");
    assert_eq!(
        bounds_params(-3, 10, 800, 600),
        "{\"height\":600,\"width\":800,\"x\":-3,\"y\":10}"
    );
    assert_eq!(owner_params(12345), "{\"hwnd\":12345}");
    assert_eq!(
        follow_params(true, -1, 2, 640, 480),
        "{\"follow\":true,\"height\":480,\"offset_x\":-1,\"offset_y\":2,\"width\":640}"
    );
    assert_eq!(
        follow_params(false, 0, 0, 1, 1),
        "{\"follow\":false,\"height\":1,\"offset_x\":0,\"offset_y\":0,\"width\":1}"
    );
}

#[test]
fn window_command_parameters_match_a_sorted_map_serializer() {
    let reference: serde_json::Value =
        serde_json::from_str("{\"y\":10, \"x\":-3, \"height\":600, \"width\":800}").unwrap();
    assert_eq!(bounds_params(-3, 10, 800, 600), reference.to_string());
}

#[test]
fn raw_multibyte_text_survives_decoding() {
    let r = parse_response(
        "{\"type\":\"response\",\"id\":\"1\",\"success\":false,\"error\":\"h\u{e9}llo \u{1F600}\"}",
    )
    .expect("decodes");
    assert_eq!(r.error.as_deref(), Some("h\u{e9}llo \u{1F600}"));
    let req = IpcRequest::new(
        String::from("1"),
        String::from("h\u{e9}llo \u{1F600}"),
        String::from("{}"),
    );
    let v: serde_json::Value = serde_json::from_str(&req.encode()).expect("well-formed");
    assert_eq!(v["method"], "h\u{e9}llo \u{1F600}");
}
