use samus::protocol::{is_whitespace_char, parse_request_line, split_words, Request, RequestError};

#[test]
fn words_split_on_any_whitespace() {
    assert_eq!(split_words("  SET\ta  b\u{3000}5 "), vec!["SET", "a", "b", "5"]);
    assert_eq!(split_words(""), Vec::<String>::new());
    assert_eq!(split_words(" \t "), Vec::<String>::new());
    assert_eq!(split_words("one"), vec!["one"]);
}

#[test]
fn whitespace_characters() {
    for c in [' ', '\t', '\n', '\r', '\u{0B}', '\u{0C}', '\u{85}', '\u{A0}', '\u{2000}', '\u{200A}', '\u{3000}'] {
        assert!(is_whitespace_char(c), "{:?}", c);
    }
    for c in ['a', '_', '\u{200B}', '0'] {
        assert!(!is_whitespace_char(c), "{:?}", c);
    }
}

#[test]
fn parses_get() {
    assert_eq!(parse_request_line("GET key"), Ok(Request::GetKey { key: "key".to_string() }));
}

#[test]
fn parses_set_with_signed_ttl() {
    assert_eq!(
        parse_request_line("SET a b -42"),
        Ok(Request::SetKey { key: "a".to_string(), value: "b".to_string(), ttl: -42 })
    );
    assert_eq!(
        parse_request_line("SET a b +9223372036854775807"),
        Ok(Request::SetKey { key: "a".to_string(), value: "b".to_string(), ttl: i64::MAX })
    );
}

#[test]
fn parses_delete_and_ignores_extra_words() {
    assert_eq!(parse_request_line("DELETE k extra"), Ok(Request::DeleteKey { key: "k".to_string() }));
}

#[test]
fn unparsable_ttl() {
    assert_eq!(parse_request_line("SET a b notanumber"), Err(RequestError::UnparsableTtl));
    assert_eq!(parse_request_line("SET a b 9223372036854775808"), Err(RequestError::UnparsableTtl));
    assert_eq!(parse_request_line("SET a b 1_000"), Err(RequestError::UnparsableTtl));
    assert_eq!(parse_request_line("SET a b -"), Err(RequestError::UnparsableTtl));
}

#[test]
fn invalid_actions() {
    assert_eq!(parse_request_line("FOO x"), Err(RequestError::InvalidAction));
    assert_eq!(parse_request_line(""), Err(RequestError::InvalidAction));
    assert_eq!(parse_request_line("GET"), Err(RequestError::InvalidAction));
    assert_eq!(parse_request_line("SET a b"), Err(RequestError::InvalidAction));
    assert_eq!(parse_request_line("DELETE"), Err(RequestError::InvalidAction));
    assert_eq!(parse_request_line("get a"), Err(RequestError::InvalidAction));
}

#[test]
fn error_messages() {
    assert_eq!(RequestError::KeyNotFound.message(), "Key not found");
    assert_eq!(RequestError::UnparsableTtl.message(), "Unparsable TTL");
    assert_eq!(RequestError::InvalidAction.message(), "Invalid request action");
}
