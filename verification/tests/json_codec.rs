use arirs::json::{parse_json, Json};

fn parse_ok(text: &str) -> Json {
    parse_json(text).expect("expected valid JSON")
}

#[test]
fn parses_literals_and_numbers() {
    assert!(matches!(parse_ok("null"), Json::Null));
    assert!(matches!(parse_ok("true"), Json::Bool(true)));
    assert!(matches!(parse_ok("false"), Json::Bool(false)));
    assert!(matches!(parse_ok("0"), Json::Int(0)));
    assert!(matches!(parse_ok("-42"), Json::Int(-42)));
    assert!(matches!(parse_ok("9223372036854775807"), Json::Int(i64::MAX)));
    assert!(matches!(parse_ok("-9223372036854775808"), Json::Int(i64::MIN)));
    // Beyond i64, and non-integers, keep their literal text.
    match parse_ok("9223372036854775808") {
        Json::Num(s) => assert_eq!(s, "9223372036854775808"),
        _ => panic!("expected a kept literal"),
    }
    match parse_ok("3.5e-1") {
        Json::Num(s) => assert_eq!(s, "3.5e-1"),
        _ => panic!("expected a kept literal"),
    }
}

#[test]
fn rejects_malformed_numbers() {
    for text in ["01", "-", "1.", "1e", "+1", ".5", "1.e1"] {
        assert!(parse_json(text).is_none(), "{text:?} should be rejected");
    }
}

#[test]
fn parses_strings_with_escapes() {
    match parse_ok(r#""a\"b\\c\/d\n\t\u0041""#) {
        Json::Str(s) => assert_eq!(s, "a\"b\\c/d\n\tA"),
        _ => panic!("expected a string"),
    }
    // A surrogate pair decodes to one character.
    match parse_ok(r#""\ud83d\ude00""#) {
        Json::Str(s) => assert_eq!(s, "\u{1f600}"),
        _ => panic!("expected a string"),
    }
    // A lone surrogate is rejected, as serde_json rejects it.
    assert!(parse_json(r#""\ud83d""#).is_none());
    assert!(serde_json::from_str::<serde_json::Value>(r#""\ud83d""#).is_err());
}

#[test]
fn parses_nested_structures_with_whitespace() {
    let text = " { \"a\" : [ 1 , { \"b\" : null } , \"x\" ] , \"c\" : true } ";
    match parse_ok(text) {
        Json::Obj(members) => {
            assert_eq!(members.len(), 2);
            assert_eq!(members[0].key, "a");
            match &members[0].value {
                Json::Arr(items) => assert_eq!(items.len(), 3),
                _ => panic!("expected an array"),
            }
        }
        _ => panic!("expected an object"),
    }
}

#[test]
fn rejects_trailing_garbage() {
    for text in ["1 2", "{} x", "[1],", "null null"] {
        assert!(parse_json(text).is_none(), "{text:?} should be rejected");
    }
}

#[test]
fn keeps_duplicate_keys_in_order() {
    match parse_ok(r#"{"k":1,"k":2}"#) {
        Json::Obj(members) => {
            assert_eq!(members.len(), 2);
            assert!(matches!(members[0].value, Json::Int(1)));
            assert!(matches!(members[1].value, Json::Int(2)));
        }
        _ => panic!("expected an object"),
    }
}

#[test]
fn serializer_output_reparses_to_the_same_value() {
    let texts = [
        r#"{"a":[1,-2,"x\ny"],"b":{"c":null,"d":false},"e":1.5e3}"#,
        r#"[true,{"k":"\u0007"},[[]],{}]"#,
    ];
    for text in texts {
        let first = parse_ok(text);
        let rendered = first.to_string();
        let second = parse_ok(&rendered);
        assert_eq!(rendered, second.to_string());
    }
}

#[test]
fn serializer_agrees_with_reference_serializer() {
    // The library's canonical output is valid JSON for serde_json, and
    // means the same value.
    let text = r#"{"s":"a\u0001b","n":-7,"arr":[null,true]}"#;
    let value = parse_ok(text);
    let rendered = value.to_string();
    let reference: serde_json::Value = serde_json::from_str(&rendered).unwrap();
    let direct: serde_json::Value = serde_json::from_str(text).unwrap();
    assert_eq!(reference, direct);
}

#[test]
fn parser_agrees_with_reference_parser_on_validity() {
    let samples = [
        ("{}", true),
        ("[]", true),
        ("3.5", true),
        ("00", false),
        ("{\"a\":1,}", false),
        ("\"\\q\"", false),
        ("\"\u{9}\"", false),  // raw control character inside a string
        ("[1, 2, 3]", true),
    ];
    for (text, valid) in samples {
        assert_eq!(parse_json(text).is_some(), valid, "disagreement on {text:?}");
        assert_eq!(
            serde_json::from_str::<serde_json::Value>(text).is_ok(),
            valid,
            "serde_json disagrees on {text:?}"
        );
    }
}

#[test]
fn multibyte_strings_roundtrip() {
    let text = "{\"s\":\"caf\u{e9} \u{1f600}\"}";
    let value = parse_ok(text);
    let rendered = value.to_string();
    match parse_ok(&rendered) {
        Json::Obj(members) => match &members[0].value {
            Json::Str(s) => assert_eq!(s, "caf\u{e9} \u{1f600}"),
            _ => panic!("expected a string"),
        },
        _ => panic!("expected an object"),
    }
    let reference: serde_json::Value = serde_json::from_str(&rendered).unwrap();
    assert_eq!(reference["s"], "caf\u{e9} \u{1f600}");
}
