use lm_logging::{
    patch_row, read_result, replace_row, ChatRole, CodecError, CreateLogRecord, GatewayError,
    LogRecord, MemoryStore, PatchLogRecord, Prompt, Timestamp,
};

fn fields(response: &str) -> CreateLogRecord {
    CreateLogRecord {
        model_provider: "anthropic".to_string(),
        model_name: "model".to_string(),
        model_version: "3".to_string(),
        app_name: "app".to_string(),
        app_project: "proj".to_string(),
        app_version: "0.1".to_string(),
        prompt: vec![
            Prompt::new(ChatRole::System, "you are terse".to_string()),
            Prompt::new(ChatRole::User, "hello".to_string()),
        ],
        response: response.to_string(),
        prompt_user_id: "user-1".to_string(),
        prompt_app_hostname: "example.org".to_string(),
        prompt_submit_ts: Timestamp::new(2025, 3, 4, 10, 11, 12, 131415).unwrap(),
        response_receipt_ts: Timestamp::new(2025, 3, 4, 10, 11, 13, 0).unwrap(),
        input_tokens: 10,
        output_tokens: 5,
        total_tokens: 15,
    }
}

#[test]
fn end_to_end_create_read_patch() {
    let mut store = MemoryStore::new();
    let id = store.create(&fields("first")).unwrap();
    assert_eq!(id, 1);
    let read = store.read(1).unwrap();
    assert_eq!(read, LogRecord::with_id(1, fields("first")));
    assert_eq!(read.prompt.len(), 2);
    assert_eq!((read.input_tokens, read.output_tokens, read.total_tokens), (10, 5, 15));

    let mut patch = PatchLogRecord::empty();
    patch.response = Some("updated".to_string());
    let patched = store.patch(1, patch).unwrap();
    assert_eq!(patched.response, "updated");
    let again = store.read(1).unwrap();
    assert_eq!(again, LogRecord::with_id(1, fields("updated")));

    assert_eq!(store.read(999), Err(GatewayError::NotFound(999)));
}

#[test]
fn ids_follow_in_sequence() {
    let mut store = MemoryStore::new();
    assert_eq!(store.create(&fields("a")), Ok(1));
    assert_eq!(store.create(&fields("a")), Ok(2));
    assert_eq!(store.create(&fields("b")), Ok(3));
    assert_eq!(store.len(), 3);
    assert_eq!(store.read(2).unwrap().response, "a");
    assert_eq!(store.read(0), Err(GatewayError::NotFound(0)));
    assert_eq!(store.read(-5), Err(GatewayError::NotFound(-5)));
    assert_eq!(store.read(4), Err(GatewayError::NotFound(4)));
}

#[test]
fn replace_overwrites_every_field() {
    let mut store = MemoryStore::new();
    store.create(&fields("old")).unwrap();
    let mut new_fields = fields("new");
    new_fields.prompt = vec![Prompt::new(ChatRole::Assistant, "ok".to_string())];
    new_fields.total_tokens = 7;
    let replaced = store.replace(1, &new_fields).unwrap();
    assert_eq!(replaced.id, 1);
    assert_eq!(store.read(1).unwrap(), LogRecord::with_id(1, new_fields));
}

#[test]
fn replace_and_patch_of_missing_id_fail() {
    let mut store = MemoryStore::new();
    assert_eq!(store.replace(1, &fields("x")), Err(GatewayError::NotFound(1)));
    assert_eq!(store.patch(2, PatchLogRecord::empty()), Err(GatewayError::NotFound(2)));
    assert_eq!(store.len(), 0);
}

#[test]
fn read_result_passes_store_failures_on() {
    assert_eq!(
        read_result(4, Err("disk full".to_string())),
        Err(GatewayError::StoreError("disk full".to_string()))
    );
    assert_eq!(read_result(4, Ok(None)), Err(GatewayError::NotFound(4)));
    let row = fields("r").to_row();
    assert_eq!(read_result(4, Ok(Some(row))), Ok(LogRecord::with_id(4, fields("r"))));
}

#[test]
fn read_result_reports_corrupt_rows() {
    let mut row = fields("r").to_row();
    row.prompt = "[oops]".to_string();
    assert_eq!(
        read_result(8, Ok(Some(row))),
        Err(GatewayError::CorruptRow(8, CodecError::MalformedTranscript))
    );
}

#[test]
fn replace_row_checks_existence_first() {
    let payload = fields("n");
    assert_eq!(replace_row(2, Ok(None), &payload), Err(GatewayError::NotFound(2)));
    assert_eq!(
        replace_row(2, Err("locked".to_string()), &payload),
        Err(GatewayError::StoreError("locked".to_string()))
    );
    let existing = fields("o").to_row();
    assert_eq!(replace_row(2, Ok(Some(existing)), &payload), Ok(payload.to_row()));
}

#[test]
fn patch_row_merges_into_stored_row() {
    let existing = fields("o").to_row();
    let mut patch = PatchLogRecord::empty();
    patch.output_tokens = Some(6);
    let row = patch_row(5, Ok(Some(existing)), patch).unwrap();
    let mut expected = fields("o");
    expected.output_tokens = 6;
    assert_eq!(row, expected.to_row());
    assert_eq!(patch_row(5, Ok(None), PatchLogRecord::empty()), Err(GatewayError::NotFound(5)));
}
