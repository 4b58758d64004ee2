use lm_logging::{decode_transcript, encode_transcript, ChatRole, CodecError, Prompt, Timestamp};

fn ts(year: u16, month: u8, day: u8, hour: u8, minute: u8, second: u8, us: u32) -> Timestamp {
    Timestamp::new(year, month, day, hour, minute, second, us).unwrap()
}

#[test]
fn role_tags_are_lower_case_names() {
    assert_eq!(ChatRole::System.tag(), "system");
    assert_eq!(ChatRole::Assistant.tag(), "assistant");
    assert_eq!(ChatRole::User.tag(), "user");
    assert_eq!(ChatRole::Tool.tag(), "tool");
}

#[test]
fn role_read_from_tag() {
    let tool: Vec<char> = "tool".chars().collect();
    assert_eq!(ChatRole::from_tag_chars(&tool), Ok(ChatRole::Tool));
    let upper: Vec<char> = "User".chars().collect();
    assert_eq!(ChatRole::from_tag_chars(&upper), Err(CodecError::InvalidRole));
}

#[test]
fn unknown_role_rejected() {
    let r = Prompt::from_json("{\"role\":\"bogus\",\"content\":\"hi\"}");
    assert_eq!(r, Err(CodecError::InvalidRole));
}

#[test]
fn prompt_text_is_compact_json() {
    let p = Prompt::new(ChatRole::User, "hi".to_string());
    assert_eq!(p.to_json(), "{\"role\":\"user\",\"content\":\"hi\"}");
    assert_eq!(Prompt::from_json("{\"role\":\"user\",\"content\":\"hi\"}"), Ok(p));
}

#[test]
fn prompt_escapes_quote_backslash_and_controls() {
    let p = Prompt::new(ChatRole::Tool, "a\"b\\c\nd\te\u{1}f\u{8}/é".to_string());
    let text = p.to_json();
    assert_eq!(
        text,
        "{\"role\":\"tool\",\"content\":\"a\\\"b\\\\c\\nd\\te\\u0001f\\b/é\"}"
    );
    assert_eq!(Prompt::from_json(&text), Ok(p));
}

#[test]
fn prompt_rejects_other_shapes() {
    for bad in [
        "",
        "{}",
        "{\"content\":\"hi\",\"role\":\"user\"}",
        "{\"role\":\"user\",\"content\":\"hi\"} ",
        "{\"role\": \"user\",\"content\":\"hi\"}",
        "{\"role\":\"user\",\"content\":\"h\\/i\"}",
        "{\"role\":\"user\",\"content\":\"\\u0041\"}",
        "{\"role\":\"user\",\"content\":\"a\nb\"}",
        "{\"role\":\"user\",\"content\":\"hi}",
    ] {
        assert_eq!(Prompt::from_json(bad), Err(CodecError::MalformedTranscript), "{bad}");
    }
}

#[test]
fn transcript_text_in_order() {
    let v = vec![
        Prompt::new(ChatRole::System, "be brief".to_string()),
        Prompt::new(ChatRole::User, "hi".to_string()),
    ];
    let text = encode_transcript(&v);
    assert_eq!(
        text,
        "[{\"role\":\"system\",\"content\":\"be brief\"},{\"role\":\"user\",\"content\":\"hi\"}]"
    );
    assert_eq!(decode_transcript(&text), Ok(v));
}

#[test]
fn empty_transcript_is_empty_array() {
    let v: Vec<Prompt> = Vec::new();
    assert_eq!(encode_transcript(&v), "[]");
    assert_eq!(decode_transcript("[]"), Ok(Vec::new()));
}

#[test]
fn transcript_with_unknown_role_rejected() {
    let text = "[{\"role\":\"user\",\"content\":\"a\"},{\"role\":\"bogus\",\"content\":\"hi\"}]";
    assert_eq!(decode_transcript(text), Err(CodecError::InvalidRole));
}

#[test]
fn malformed_transcripts_rejected() {
    for bad in [
        "",
        "[",
        "[ ]",
        "[{}]",
        "[{\"role\":\"user\",\"content\":\"a\"},]",
        "[{\"role\":\"user\",\"content\":\"a\"}]x",
        "{\"role\":\"user\",\"content\":\"a\"}",
        "[{\"role\":\"bogus\",\"content\":\"a\"}",
    ] {
        assert_eq!(decode_transcript(bad), Err(CodecError::MalformedTranscript), "{bad}");
    }
}

#[test]
fn timestamp_canonical_text() {
    let t = ts(2024, 2, 29, 13, 5, 9, 123456);
    assert_eq!(t.to_text(), "2024-02-29T13:05:09.123456");
    assert_eq!(Timestamp::parse("2024-02-29T13:05:09.123456"), Ok(t));
    let early = ts(7, 1, 2, 0, 0, 0, 42);
    assert_eq!(early.to_text(), "0007-01-02T00:00:00.000042");
    assert_eq!(Timestamp::parse(&early.to_text()), Ok(early));
}

#[test]
fn timestamp_with_offset_rejected() {
    assert_eq!(
        Timestamp::parse("2024-01-01T12:00:00.000000+00:00"),
        Err(CodecError::InvalidTimestamp)
    );
    assert_eq!(Timestamp::parse("2024-01-01T12:00:00.000000Z"), Err(CodecError::InvalidTimestamp));
    assert_eq!(Timestamp::parse("2024-01-01T12:00:00.000000"), Ok(ts(2024, 1, 1, 12, 0, 0, 0)));
}

#[test]
fn timestamp_other_forms_rejected() {
    for bad in [
        "",
        "2024-01-01 12:00:00.000000",
        "2024-01-01T12:00:00",
        "2024-01-01T12:00:00.5",
        "2024-01-01T12:00:00.0000000",
        "2024-1-01T12:00:00.000000",
        "2024-13-01T12:00:00.000000",
        "2024-00-10T12:00:00.000000",
        "2024-04-31T12:00:00.000000",
        "2023-02-29T12:00:00.000000",
        "2024-01-01T24:00:00.000000",
        "2024-01-01T12:60:00.000000",
        "2024-01-01T12:00:60.000000",
        "+024-01-01T12:00:00.000000",
    ] {
        assert_eq!(Timestamp::parse(bad), Err(CodecError::InvalidTimestamp), "{bad}");
    }
}

#[test]
fn timestamp_leap_years() {
    assert!(Timestamp::new(2000, 2, 29, 0, 0, 0, 0).is_ok());
    assert!(Timestamp::new(2024, 2, 29, 0, 0, 0, 0).is_ok());
    assert_eq!(Timestamp::new(1900, 2, 29, 0, 0, 0, 0), Err(CodecError::InvalidTimestamp));
    assert_eq!(Timestamp::new(2023, 2, 29, 0, 0, 0, 0), Err(CodecError::InvalidTimestamp));
    assert!(Timestamp::parse("2000-02-29T00:00:00.000000").is_ok());
    assert_eq!(Timestamp::parse("1900-02-29T00:00:00.000000"), Err(CodecError::InvalidTimestamp));
}

#[test]
fn timestamp_field_limits() {
    assert!(Timestamp::new(9999, 12, 31, 23, 59, 59, 999_999).is_ok());
    assert_eq!(Timestamp::new(10000, 1, 1, 0, 0, 0, 0), Err(CodecError::InvalidTimestamp));
    assert_eq!(Timestamp::new(2024, 1, 1, 0, 0, 0, 1_000_000), Err(CodecError::InvalidTimestamp));
    assert_eq!(Timestamp::new(2024, 1, 0, 0, 0, 0, 0), Err(CodecError::InvalidTimestamp));
    let last = ts(9999, 12, 31, 23, 59, 59, 999_999);
    assert_eq!(last.to_text(), "9999-12-31T23:59:59.999999");
}

#[test]
fn role_read_from_str_tag() {
    assert_eq!(ChatRole::from_tag("assistant"), Ok(ChatRole::Assistant));
    assert_eq!(ChatRole::from_tag("system"), Ok(ChatRole::System));
    assert_eq!(ChatRole::from_tag("bogus"), Err(CodecError::InvalidRole));
    assert_eq!(ChatRole::from_tag(""), Err(CodecError::InvalidRole));
}

#[test]
fn optional_timestamp_absent_or_canonical() {
    assert_eq!(Timestamp::parse_optional(None), Ok(None));
    assert_eq!(
        Timestamp::parse_optional(Some("2024-03-01T00:00:00.000001")),
        Ok(Some(ts(2024, 3, 1, 0, 0, 0, 1)))
    );
    assert_eq!(Timestamp::parse_optional(Some("")), Err(CodecError::InvalidTimestamp));
    assert_eq!(
        Timestamp::parse_optional(Some("2024-03-01T00:00:00+00:00")),
        Err(CodecError::InvalidTimestamp)
    );
}
