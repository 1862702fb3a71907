use sps::handler::middleware::{envelope_to_json, JsonResponse, JsonResponseMiddleware};
use sps::job::telegram::{build_get_updates, interpret_updates_response, next_offset, parse_start_text, Update};
use sps::json::json_string;
use sps::logic::auth_logic::auth_message;
use sps::strutil::{i64_to_string, parse_i64, str_eq, str_starts_with, u64_to_string};
use sps::transport::telegram::{format_push_text, interpret_send_response, send_message_body, Telegram};

#[test]
fn renders_integers_in_decimal() {
    assert_eq!(u64_to_string(0).as_str(), "0");
    assert_eq!(u64_to_string(45).as_str(), "45");
    assert_eq!(u64_to_string(18446744073709551615).as_str(), "18446744073709551615");
    assert_eq!(i64_to_string(0).as_str(), "0");
    assert_eq!(i64_to_string(-1).as_str(), "-1");
    assert_eq!(i64_to_string(1700000000).as_str(), "1700000000");
    assert_eq!(i64_to_string(i64::MIN).as_str(), "-9223372036854775808");
    assert_eq!(i64_to_string(i64::MAX).as_str(), "9223372036854775807");
}

#[test]
fn parses_decimal_strings() {
    assert_eq!(parse_i64("0"), Some(0));
    assert_eq!(parse_i64("1700000060"), Some(1700000060));
    assert_eq!(parse_i64("-42"), Some(-42));
    assert_eq!(parse_i64("-9223372036854775808"), Some(i64::MIN));
    assert_eq!(parse_i64("9223372036854775807"), Some(i64::MAX));
    assert_eq!(parse_i64("9223372036854775808"), None);
    assert_eq!(parse_i64("-9223372036854775809"), None);
    assert_eq!(parse_i64(""), None);
    assert_eq!(parse_i64("-"), None);
    assert_eq!(parse_i64("12a"), None);
    assert_eq!(parse_i64("99999999999999999999999"), None);
}

#[test]
fn parse_inverts_rendering() {
    for v in [0i64, 7, -7, 1234567, i64::MIN, i64::MAX] {
        assert_eq!(parse_i64(i64_to_string(v).as_str()), Some(v));
    }
}

#[test]
fn string_helpers_compare_characterwise() {
    assert!(str_eq("abc", "abc"));
    assert!(!str_eq("abc", "abd"));
    assert!(!str_eq("abc", "ab"));
    assert!(str_starts_with("Bearer xyz", "Bearer "));
    assert!(!str_starts_with("Bear", "Bearer "));
    assert!(str_starts_with("anything", ""));
}

#[test]
fn escapes_json_strings() {
    assert_eq!(json_string("plain").as_str(), "\"plain\"");
    assert_eq!(json_string("a\"b\\c").as_str(), "\"a\\\"b\\\\c\"");
    assert_eq!(json_string("line\nbreak\ttab\rcr").as_str(), "\"line\\nbreak\\ttab\\rcr\"");
    assert_eq!(json_string("\u{1}\u{1f}").as_str(), "\"\\u0001\\u001f\"");
    assert_eq!(json_string("émoji ✔").as_str(), "\"émoji ✔\"");
}

#[test]
fn formats_push_text_with_bracketed_title() {
    assert_eq!(format_push_text("T", "C").as_str(), "[T]\n\nC");
    assert_eq!(format_push_text("", "body only").as_str(), "body only");
}

#[test]
fn frames_send_message_body() {
    assert_eq!(
        send_message_body("42", "[T]\n\nC").as_str(),
        "{\"chat_id\":\"42\",\"text\":\"[T]\\n\\nC\"}"
    );
    // the body must be real JSON
    assert!(serde_json::from_str::<serde_json::Value>(send_message_body("4\"2", "a\\b").as_str()).is_ok());
}

#[test]
fn builds_send_message_endpoint() {
    let t = Telegram::new("https://example.invalid/", "SECRET-REDACTED");
    assert_eq!(t.uri.as_str(), "https://example.invalid/botSECRET-REDACTED/sendMessage");
}

#[test]
fn send_response_failure_carries_description() {
    assert!(interpret_send_response(true, None).is_ok());
    assert!(interpret_send_response(true, Some(String::from("ignored"))).is_ok());
    assert_eq!(interpret_send_response(false, Some(String::from("bad chat"))), Err(String::from("bad chat")));
    assert_eq!(interpret_send_response(false, None), Err(String::new()));
}

#[test]
fn update_poll_parameters() {
    let p = build_get_updates(0);
    assert_eq!(p.offset, None);
    assert_eq!(p.limit, Some(100));
    assert_eq!(p.timeout, Some(5));
    assert_eq!(p.allowed_updates.as_ref().unwrap().len(), 1);
    assert_eq!(p.allowed_updates.unwrap()[0].as_str(), "message");
    let p = build_get_updates(17);
    assert_eq!(p.offset, Some(17));
}

#[test]
fn offset_tracks_one_past_last_update() {
    let none: Vec<Update> = Vec::new();
    assert_eq!(next_offset(&none, 9), 9);
    let ups = vec![
        Update { update_id: 4, message: None },
        Update { update_id: 7, message: None },
    ];
    assert_eq!(next_offset(&ups, 9), 8);
}

#[test]
fn updates_response_interpretation() {
    let r = interpret_updates_response(false, Some(String::from("down")), None);
    assert_eq!(r.err().map(|e| e.to_string()), Some(String::from("down")));
    let r = interpret_updates_response(true, None, None);
    assert_eq!(r.err().map(|e| e.to_string()), Some(String::from("invalid result")));
    let r = interpret_updates_response(true, None, Some(vec![Update { update_id: 1, message: None }]));
    assert_eq!(r.unwrap().len(), 1);
}

#[test]
fn recognises_start_commands() {
    let got = parse_start_text("/start 123e4567-e89b-12d3-a456-426614174000");
    assert_eq!(got.as_deref(), Some("123e4567-e89b-12d3-a456-426614174000"));
    assert_eq!(parse_start_text("/start"), None);
    assert_eq!(parse_start_text("hello"), None);
}

#[test]
fn consent_message_carries_timestamp() {
    assert_eq!(
        auth_message(1700000000).as_str(),
        "I agree to connect my wallet to the simple push service. 1700000000"
    );
}

#[test]
fn envelope_wraps_valid_json_as_result() {
    let mw = JsonResponseMiddleware::new();
    let e = mw.wrap_body(String::from("{\"status\":\"queued\"}"));
    assert!(e.ok);
    assert_eq!(envelope_to_json(&e).as_str(), "{\"ok\":true,\"result\":{\"status\":\"queued\"}}");
}

#[test]
fn envelope_rejects_broken_body() {
    let mw = JsonResponseMiddleware::new();
    let e = mw.wrap_body(String::from("{not json"));
    assert!(!e.ok);
    assert_eq!(e.error_code, Some(500));
    let text = envelope_to_json(&e);
    assert!(text.as_str().starts_with("{\"ok\":false,\"error_code\":500,\"description\":\""));
    assert!(serde_json::from_str::<serde_json::Value>(text.as_str()).is_ok());
}

#[test]
fn envelope_wraps_errors_with_status() {
    let mw = JsonResponseMiddleware::new();
    let e = mw.wrap_error(404, String::from("no such user"));
    assert_eq!(
        envelope_to_json(&e).as_str(),
        "{\"ok\":false,\"error_code\":404,\"description\":\"no such user\"}"
    );
    let parsed: serde_json::Value = serde_json::from_str(envelope_to_json(&e).as_str()).unwrap();
    assert_eq!(parsed["error_code"], serde_json::Value::from(404));
}

#[test]
fn envelope_of_plain_error() {
    let e = JsonResponse { ok: false, error_code: Some(401), description: Some(String::from("Unauthorized")), result: None };
    assert_eq!(
        envelope_to_json(&e).as_str(),
        "{\"ok\":false,\"error_code\":401,\"description\":\"Unauthorized\"}"
    );
}
