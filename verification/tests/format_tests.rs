use testevents::api::traceparent;
use testevents::attrs::AttrValue;
use testevents::hexfmt::{parse_hex_u128, parse_hex_u64, span_id_hex, trace_id_hex};
use testevents::numfmt::i64_to_string;
use testevents::span::SpanAttributes;

fn span_with_ids(trace_id: &str, span_id: &str, parent_id: Option<&str>) -> SpanAttributes {
    SpanAttributes {
        timestamp: 0,
        duration_ms: 0,
        name: String::from("x"),
        status_code: 0,
        status_message: String::new(),
        trace_span_id: String::from(span_id),
        trace_trace_id: String::from(trace_id),
        trace_parent_id: parent_id.map(String::from),
        extra: Vec::new(),
        ttl: 0,
    }
}

#[test]
fn trace_id_renders_as_32_lowercase_hex_digits() {
    assert_eq!(
        trace_id_hex(0x58406520a006649127e371903a2de979),
        "58406520a006649127e371903a2de979"
    );
    assert_eq!(trace_id_hex(0), "00000000000000000000000000000000");
    assert_eq!(trace_id_hex(u128::MAX), "ffffffffffffffffffffffffffffffff");
}

#[test]
fn span_id_renders_as_16_lowercase_hex_digits() {
    assert_eq!(span_id_hex(0x58406520a0066491), "58406520a0066491");
    assert_eq!(span_id_hex(0), "0000000000000000");
    assert_eq!(span_id_hex(255), "00000000000000ff");
}

#[test]
fn traceparent_has_w3c_shape() {
    let t = trace_id_hex(1);
    let s = span_id_hex(2);
    assert_eq!(
        traceparent(&t, &s),
        "00-00000000000000000000000000000001-0000000000000002-01"
    );
}

#[test]
fn hex_parsing_accepts_what_from_str_radix_accepts() {
    assert_eq!(parse_hex_u128("42"), Some(0x42));
    assert_eq!(parse_hex_u128("+ff"), Some(255));
    assert_eq!(parse_hex_u128("FF"), Some(255));
    assert_eq!(
        parse_hex_u128("58406520a006649127e371903a2de979"),
        Some(0x58406520a006649127e371903a2de979)
    );
    assert_eq!(
        parse_hex_u128("0000000000000000000000000000000000000042"),
        Some(0x42)
    );
    assert_eq!(parse_hex_u128(""), None);
    assert_eq!(parse_hex_u128("+"), None);
    assert_eq!(parse_hex_u128("not_hex"), None);
    assert_eq!(parse_hex_u128("-1"), None);
    assert_eq!(parse_hex_u128("fffffffffffffffffffffffffffffffff"), None);
}

#[test]
fn hex_parsing_into_64_bits_respects_the_narrower_bound() {
    assert_eq!(parse_hex_u64("ffffffffffffffff"), Some(u64::MAX));
    assert_eq!(parse_hex_u64("10000000000000000"), None);
    assert_eq!(parse_hex_u64("0"), Some(0));
}

#[test]
fn span_ids_parse_back_from_their_stored_text() {
    let sp = span_with_ids(
        "58406520a006649127e371903a2de979",
        "58406520a0066491",
        Some("00f067aa0ba902b7"),
    );
    assert_eq!(sp.otel_trace_id(), Some(0x58406520a006649127e371903a2de979));
    assert_eq!(sp.otel_span_id(), Some(0x58406520a0066491));
    assert_eq!(sp.otel_parent_id(), Some(0x00f067aa0ba902b7));
}

#[test]
fn malformed_ids_parse_to_nothing() {
    let sp = span_with_ids("zz", "also not hex", None);
    assert_eq!(sp.otel_trace_id(), None);
    assert_eq!(sp.otel_span_id(), None);
    assert_eq!(sp.otel_parent_id(), None);
}

#[test]
fn decimal_rendering_is_exact() {
    assert_eq!(i64_to_string(0), "0");
    assert_eq!(i64_to_string(12345), "12345");
    assert_eq!(i64_to_string(-7), "-7");
    assert_eq!(i64_to_string(i64::MAX), "9223372036854775807");
    assert_eq!(i64_to_string(i64::MIN), "-9223372036854775808");
}

#[test]
fn timeout_stamp_sets_code_and_quotes_the_window() {
    let mut sp = span_with_ids("aa", "bb", None);
    sp.ttl = 500;
    sp.error_timeout();
    assert_eq!(sp.status_code, 2);
    assert_eq!(sp.status_message, "testevents timeout: TTL was 500");
}

#[test]
fn standalone_merge_applies_entries_in_order() {
    let mut sp = span_with_ids("aa", "bb", None);
    let merge = vec![
        (String::from("name"), AttrValue::Str(String::from("renamed"))),
        (String::from("status_code"), AttrValue::Int(2)),
    ];
    sp.merge(merge);
    assert_eq!(sp.name, "renamed");
    assert_eq!(sp.status_code, 2);
}
