use periodic_audit::split::{split_json_parts, SplitError};

#[test]
fn split_single_object() {
    let input = r#"  {"a":1}  "#;
    let parts = split_json_parts(input, 0).expect("should split single object");
    assert_eq!(parts.len(), 1);
    assert_eq!(parts[0], r#"{"a":1}"#);
}

#[test]
fn split_multiple_objects() {
    let input = r#"{"a":1}

{"b":2}"#;
    let parts = split_json_parts(input, 1).expect("should split two objects");
    assert_eq!(parts.len(), 2);
    assert_eq!(parts[0], r#"{"a":1}"#);
    assert_eq!(parts[1], r#"{"b":2}"#);
}

#[test]
fn braces_inside_string_dont_affect_split() {
    let input = r#"{"s":"}{"}{}"#;
    let parts = split_json_parts(input, 10).expect("should split into two objects");
    assert_eq!(parts.len(), 2);
    assert_eq!(parts[0], r#"{"s":"}{"}"#);
    assert_eq!(parts[1], r#"{}"#);
}

#[test]
fn unterminated_string_error() {
    let input = r#"{"a":"b}"#;
    let err = split_json_parts(input, 1).unwrap_err();
    assert!(err.message().contains("Unterminated string"));
}

#[test]
fn trailing_backslash_error() {
    let input = r#"{"a":"b\"#;
    let err = split_json_parts(input, 1).unwrap_err();
    assert!(err.message().contains("Trailing backslash"));
}

#[test]
fn mismatched_braces_error() {
    let input = r#"{"#;
    let err = split_json_parts(input, 1).unwrap_err();
    assert!(err.message().contains("Mismatched braces"));
}

#[test]
fn trailing_garbage_error() {
    let input = r#"{} garbage"#;
    let err = split_json_parts(input, 1).unwrap_err();
    assert!(err.message().contains("Trailing garbage"));
}

#[test]
fn nested_objects() {
    let input = r#"  {"a":{"b":{"c":3},"arr":[{"x":1}]}}  "#;
    let parts = split_json_parts(input, 1).expect("should handle nested objects");
    assert_eq!(parts.len(), 1);
    assert_eq!(parts[0], r#"{"a":{"b":{"c":3},"arr":[{"x":1}]}}"#);
}

#[test]
fn split_errors_are_the_right_variants() {
    assert_eq!(split_json_parts(r#"{"a":"b}"#, 0), Err(SplitError::UnterminatedString));
    assert_eq!(split_json_parts(r#"{"a":"b\"#, 0), Err(SplitError::TrailingBackslash));
    assert_eq!(split_json_parts("{", 0), Err(SplitError::MismatchedBraces));
    assert_eq!(split_json_parts("{} garbage", 0), Err(SplitError::TrailingGarbage));
}

#[test]
fn split_empty_and_blank_input() {
    assert_eq!(split_json_parts("", 0), Ok(vec![]));
    assert_eq!(split_json_parts(" \n\t ", 0), Ok(vec![]));
}

#[test]
fn split_three_objects_with_tricky_strings() {
    let input = "\n{\"a\":\"x\\\"}\"}\t{\"b\":{\"c\":\"{{\"}}  \r\n{\"d\":\"\\\\\"}\n";
    let parts = split_json_parts(input, 3).unwrap();
    assert_eq!(
        parts,
        vec![
            "{\"a\":\"x\\\"}\"}".to_string(),
            "{\"b\":{\"c\":\"{{\"}}".to_string(),
            "{\"d\":\"\\\\\"}".to_string(),
        ]
    );
}

#[test]
fn split_parts_resplit_to_themselves() {
    let input = r#" {"a":[1,{"b":"}"}]} {"c":null}"#;
    let parts = split_json_parts(input, 0).unwrap();
    for p in &parts {
        assert_eq!(split_json_parts(p, 0), Ok(vec![p.clone()]));
    }
}

#[test]
fn split_escaped_backslash_before_quote() {
    // The escaped backslash does not escape the closing quote.
    let parts = split_json_parts(r#"{"a":"\\"}"#, 0).unwrap();
    assert_eq!(parts, vec![r#"{"a":"\\"}"#.to_string()]);
    // A stray closing brace never closes an object.
    assert_eq!(split_json_parts("}", 0), Err(SplitError::MismatchedBraces));
}

#[test]
fn split_non_ascii_text() {
    let parts = split_json_parts("\u{a0}{\"ä\":\"ö}\"}\u{3000}", 0).unwrap();
    assert_eq!(parts, vec!["{\"ä\":\"ö}\"}".to_string()]);
}

#[test]
fn replacing_string_contents_keeps_the_split() {
    let a = r#"{"k":1} {"s":""#;
    let b = r#""} {"t":2}"#;
    for (s, s2) in [("}}}{", "{"), ("", "}{}{}{"), (r#"\"{"#, "x")] {
        let p = split_json_parts(&format!("{a}{s}{b}"), 0).unwrap();
        let q = split_json_parts(&format!("{a}{s2}{b}"), 0).unwrap();
        assert_eq!(p.len(), 3);
        assert_eq!(q.len(), 3);
        assert_eq!(p[0], q[0]);
        assert_eq!(p[1], format!(r#"{{"s":"{s}"}}"#));
        assert_eq!(q[1], format!(r#"{{"s":"{s2}"}}"#));
        assert_eq!(p[2], q[2]);
    }
    let e1 = split_json_parts(&format!("{a}}}}}"), 0);
    let e2 = split_json_parts(&format!("{a}{{{{"), 0);
    assert_eq!(e1, Err(SplitError::UnterminatedString));
    assert_eq!(e2, Err(SplitError::UnterminatedString));
}
