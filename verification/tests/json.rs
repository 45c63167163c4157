use vibealong::float::from_bits;
use vibealong::ip::{is_loopback, is_loopback_host, parse_ip, IpAddress};
use vibealong::ip_text::format_ip;
use vibealong::json;
use vibealong::json::JsonValue;
use vibealong::text;

fn document(text: &str) -> JsonValue {
    json::parse(text).expect("json")
}

fn number(value: &JsonValue) -> f64 {
    f64::from_bits(json::js_to_number(Some(value)).bits)
}

#[test]
fn documents_are_read_and_written() {
    let value = document(r#" {"b": [1, 2.5, -3], "a": "x\ny\"", "c": null, "d": true} "#);
    assert_eq!(
        value.to_text(),
        r#"{"a":"x\ny\"","b":[1,2.5,-3],"c":null,"d":true}"#
    );
    assert!(json::parse("{").is_err());
    assert_eq!(document(&value.to_text()), value);
}

#[test]
fn values_of_the_parser_are_converted() {
    let raw: serde_json::Value = serde_json::from_str(r#"{"n": 18446744073709551615, "t": []}"#)
        .expect("value");
    let value = json::from_value(raw);
    assert_eq!(json::unsigned_of(value.get("n")), Some(u64::MAX));
    assert_eq!(json::signed_of(value.get("n")), None);
    assert_eq!(json::array_of(value.get("t")).map(Vec::len), Some(0));
}

#[test]
fn texts_are_read_as_numbers() {
    assert_eq!(number(&document("\" 2.5 \"")), 2.5);
    assert_eq!(number(&document("\"\"")), 0.0);
    assert!(number(&document("\"abc\"")).is_nan());
    assert_eq!(number(&document("\"inf\"")), f64::INFINITY);
    assert_eq!(number(&document("true")), 1.0);
    assert_eq!(number(&document("null")), 0.0);
    assert!(number(&document("[1]")).is_nan());
    assert!(f64::from_bits(json::js_to_number(None).bits).is_nan());
    let default = from_bits(7.0_f64.to_bits());
    assert_eq!(json::number_with_nullish_default(None, default), default);
    assert_eq!(
        json::number_with_nullish_default(Some(&document("null")), default),
        default
    );
}

#[test]
fn truth_is_told_as_in_scripts() {
    assert!(!json::js_truthy(None));
    assert!(!json::js_truthy(Some(&document("0"))));
    assert!(!json::js_truthy(Some(&document("\"\""))));
    assert!(json::js_truthy(Some(&document("[]"))));
    assert!(json::js_truthy(Some(&document("\"0\""))));
    assert_eq!(json::string_or_truthy_fallback(Some(&document("\"\"")), "f"), "f");
    assert_eq!(json::string_or_truthy_fallback(Some(&document("12")), "f"), "12");
}

#[test]
fn merges_go_by_name() {
    let base = document(r#"{"a": {"x": 1, "y": 2}, "b": [1, 2], "c": 3}"#);
    let incoming = document(r#"{"a": {"y": 5, "z": 6}, "b": [9]}"#);
    let merged = json::deep_merge(&base, &incoming);
    assert_eq!(
        merged,
        document(r#"{"a": {"x": 1, "y": 5, "z": 6}, "b": [9], "c": 3}"#)
    );
    assert_eq!(json::deep_merge(&base, &document("{}")), base);
}

#[test]
fn addresses_are_read_back_from_their_text() {
    for s in [
        "0.0.0.0",
        "127.0.0.1",
        "255.255.255.255",
        "::",
        "::1",
        "fe80::1",
        "2001:db8::8a2e:370:7334",
        "1:0:2:3:4:5:6:7",
        "::ffff:192.168.1.20",
        "1:2:3:4:5:6:7:8",
        "1::",
    ] {
        let address = parse_ip(s).expect("address");
        assert_eq!(format_ip(address), s);
    }
    for s in ["", "1.2.3", "256.1.1.1", "01.2.3.4", "1:2", ":::", "g::", "1.2.3.4.5", "::1::"] {
        assert_eq!(parse_ip(s), None);
    }
    assert_eq!(parse_ip("1.2.3.4"), Some(IpAddress::V4(0x0102_0304)));
    assert!(is_loopback(IpAddress::V6(1)));
    assert!(is_loopback_host("localhost"));
    assert!(is_loopback_host("127.8.9.1"));
    assert!(!is_loopback_host("10.0.0.1"));
}

#[test]
fn texts_are_cut_as_the_standard_library_does() {
    for s in ["", "  a b ", "\u{2003}x\u{a0}", "\t\r\n", "abc"] {
        assert_eq!(text::trim(s), s.trim());
        assert_eq!(text::word(s), s.split_whitespace().next().unwrap_or(""));
        assert_eq!(text::lowercase(s), s.to_ascii_lowercase());
        assert_eq!(text::byte_len(s), s.len());
    }
    for s in ["", "a", "a\nb", "a\r\nb\r\n", "\n\n", "a\r", "x\n\ry"] {
        let expected: Vec<String> = s.lines().map(str::to_string).collect();
        assert_eq!(text::lines(s), expected);
    }
    for s in ["", "a:b", ":", "a::b:", "abc"] {
        let expected: Vec<String> = s.split(':').map(str::to_string).collect();
        assert_eq!(text::split(s, &vec![':']), expected);
    }
    assert_eq!(text::trim_end_char("a//", '/'), "a");
    assert_eq!(text::trim_char("//a/", '/'), "a");
    assert_eq!(text::find("hello", "lo"), Some(3));
    assert_eq!(text::find("hello", "x"), None);
    assert!(text::contains("hello", ""));
    assert!(text::same_text_ignore_case("TrUe", "tRuE"));
    assert!(text::comes_before("Z", "a"));
}

#[test]
fn numbers_are_written_and_read() {
    for n in [0u64, 9, 10, 255, 65_535, u64::MAX] {
        assert_eq!(text::decimal(n), n.to_string());
        assert_eq!(text::parse_unsigned(&n.to_string(), u64::MAX), Some(n));
    }
    for n in [0i64, -1, i64::MIN, i64::MAX] {
        assert_eq!(text::signed_decimal(n), n.to_string());
    }
    assert_eq!(text::parse_unsigned("+7", 65_535), Some(7));
    assert_eq!(text::parse_unsigned("65536", 65_535), None);
    assert_eq!(text::parse_unsigned("", 65_535), None);
    assert_eq!(text::parse_unsigned("+", 65_535), None);
    assert_eq!(text::parse_unsigned("-1", 65_535), None);
    assert_eq!(text::parse_unsigned("1 ", 65_535), None);
}

#[test]
fn merging_once_more_changes_nothing() {
    let base = document(r#"{"a": {"x": 1, "y": [1]}, "b": 2, "d": "text"}"#);
    let incoming = document(r#"{"a": {"y": [2, 3], "z": {"k": null}}, "c": true, "d": {"n": 1}}"#);
    let once = json::deep_merge(&base, &incoming);
    assert_eq!(json::deep_merge(&once, &incoming), once);
    assert_eq!(
        once,
        document(
            r#"{"a": {"x": 1, "y": [2, 3], "z": {"k": null}}, "b": 2, "c": true, "d": {"n": 1}}"#
        )
    );
    for other in ["[1]", "null", "3", "\"s\""] {
        assert_eq!(json::deep_merge(&base, &document(other)), base);
    }
}

#[test]
fn texts_are_escaped_in_their_literals() {
    let value = JsonValue::Text("\u{1}\u{8}\t\n\u{b}\u{c}\r\u{1f} \"\\/\u{7f}é".to_string());
    assert_eq!(
        value.to_text(),
        "\"\\u0001\\b\\t\\n\\u000b\\f\\r\\u001f \\\"\\\\/\u{7f}é\""
    );
}
