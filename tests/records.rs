use lm_logging::{
    apply_patch, ChatRole, CodecError, CreateLogRecord, LogRecord, PatchLogRecord, Prompt,
    StoredRow, Timestamp,
};

fn sample_fields() -> CreateLogRecord {
    CreateLogRecord {
        model_provider: "openai".to_string(),
        model_name: "gpt".to_string(),
        model_version: "4".to_string(),
        app_name: "notes".to_string(),
        app_project: "demo".to_string(),
        app_version: "1.2.0".to_string(),
        prompt: vec![
            Prompt::new(ChatRole::System, "be brief".to_string()),
            Prompt::new(ChatRole::User, "say \"hi\"".to_string()),
        ],
        response: "hi".to_string(),
        prompt_user_id: "u-17".to_string(),
        prompt_app_hostname: "host.local".to_string(),
        prompt_submit_ts: Timestamp::new(2024, 5, 6, 7, 8, 9, 100).unwrap(),
        response_receipt_ts: Timestamp::new(2024, 5, 6, 7, 8, 10, 250_000).unwrap(),
        input_tokens: 10,
        output_tokens: 5,
        total_tokens: 15,
    }
}

fn sample_record() -> LogRecord {
    LogRecord::with_id(3, sample_fields())
}

#[test]
fn merge_empty_patch_is_identity() {
    let merged = apply_patch(sample_record(), PatchLogRecord::empty());
    assert_eq!(merged, sample_record());
}

#[test]
fn merge_response_only() {
    let mut patch = PatchLogRecord::empty();
    patch.response = Some("X".to_string());
    let merged = apply_patch(sample_record(), patch);
    let mut expected = sample_record();
    expected.response = "X".to_string();
    assert_eq!(merged, expected);
    assert_eq!(merged.response, "X");
    assert_eq!(merged.id, 3);
}

#[test]
fn merge_empty_string_is_present() {
    let mut patch = PatchLogRecord::empty();
    patch.app_name = Some(String::new());
    patch.input_tokens = Some(0);
    let merged = apply_patch(sample_record(), patch);
    assert_eq!(merged.app_name, "");
    assert_eq!(merged.input_tokens, 0);
    assert_eq!(merged.app_project, "demo");
}

#[test]
fn merge_full_patch_overwrites_all_but_id() {
    let patch = PatchLogRecord {
        model_provider: Some("p".to_string()),
        model_name: Some("n".to_string()),
        model_version: Some("v".to_string()),
        app_name: Some("a".to_string()),
        app_project: Some("ap".to_string()),
        app_version: Some("av".to_string()),
        prompt: Some(vec![Prompt::new(ChatRole::Tool, "t".to_string())]),
        response: Some("r".to_string()),
        prompt_user_id: Some("u".to_string()),
        prompt_app_hostname: Some("h".to_string()),
        prompt_submit_ts: Some(Timestamp::new(2020, 1, 1, 0, 0, 0, 0).unwrap()),
        response_receipt_ts: Some(Timestamp::new(2020, 1, 1, 0, 0, 1, 0).unwrap()),
        input_tokens: Some(1),
        output_tokens: Some(2),
        total_tokens: Some(99),
    };
    let merged = apply_patch(sample_record(), patch);
    let expected = LogRecord {
        id: 3,
        model_provider: "p".to_string(),
        model_name: "n".to_string(),
        model_version: "v".to_string(),
        app_name: "a".to_string(),
        app_project: "ap".to_string(),
        app_version: "av".to_string(),
        prompt: vec![Prompt::new(ChatRole::Tool, "t".to_string())],
        response: "r".to_string(),
        prompt_user_id: "u".to_string(),
        prompt_app_hostname: "h".to_string(),
        prompt_submit_ts: Timestamp::new(2020, 1, 1, 0, 0, 0, 0).unwrap(),
        response_receipt_ts: Timestamp::new(2020, 1, 1, 0, 0, 1, 0).unwrap(),
        input_tokens: 1,
        output_tokens: 2,
        total_tokens: 99,
    };
    assert_eq!(merged, expected);
}

#[test]
fn storage_round_trip() {
    let fields = sample_fields();
    let row = fields.to_row();
    assert_eq!(
        row.prompt,
        "[{\"role\":\"system\",\"content\":\"be brief\"},{\"role\":\"user\",\"content\":\"say \\\"hi\\\"\"}]"
    );
    assert_eq!(row.prompt_submit_ts, "2024-05-06T07:08:09.000100");
    assert_eq!(row.response_receipt_ts, "2024-05-06T07:08:10.250000");
    assert_eq!(row.total_tokens, 15);
    assert_eq!(CreateLogRecord::from_row(&row), Ok(sample_fields()));
    assert_eq!(LogRecord::from_row(3, &row), Ok(sample_record()));
}

#[test]
fn total_tokens_kept_as_given() {
    let mut fields = sample_fields();
    fields.total_tokens = 1000;
    let row = fields.to_row();
    assert_eq!(CreateLogRecord::from_row(&row).unwrap().total_tokens, 1000);
}

fn bad_row() -> StoredRow {
    sample_fields().to_row()
}

#[test]
fn stored_row_errors_in_order() {
    let mut row = bad_row();
    row.response_receipt_ts = "yesterday".to_string();
    assert_eq!(CreateLogRecord::from_row(&row), Err(CodecError::InvalidTimestamp));
    row.prompt = "[{\"role\":\"bogus\",\"content\":\"x\"}]".to_string();
    assert_eq!(CreateLogRecord::from_row(&row), Err(CodecError::InvalidRole));
    row.prompt = "not json".to_string();
    assert_eq!(CreateLogRecord::from_row(&row), Err(CodecError::MalformedTranscript));
    let mut row = bad_row();
    row.prompt_submit_ts = "2024-05-06T07:08:09.000100+01:00".to_string();
    assert_eq!(LogRecord::from_row(1, &row), Err(CodecError::InvalidTimestamp));
}

#[test]
fn timestamps_checked_before_storage() {
    let mut fields = sample_fields();
    assert!(fields.timestamps_valid());
    fields.prompt_submit_ts.month = 13;
    assert!(!fields.timestamps_valid());
    let mut patch = PatchLogRecord::empty();
    assert!(patch.timestamps_valid());
    patch.response_receipt_ts = Some(Timestamp {
        year: 2023,
        month: 2,
        day: 29,
        hour: 0,
        minute: 0,
        second: 0,
        microsecond: 0,
    });
    assert!(!patch.timestamps_valid());
}
