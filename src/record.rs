use vstd::prelude::*;

use crate::chat_role::ChatRole;
use crate::prompt::{transcript_model, Prompt};
use crate::timestamp::Timestamp;

verus! {

/// The fields of a log record other than its id, as values.
pub struct RecordFields {
    pub model_provider: Seq<char>,
    pub model_name: Seq<char>,
    pub model_version: Seq<char>,
    pub app_name: Seq<char>,
    pub app_project: Seq<char>,
    pub app_version: Seq<char>,
    pub prompt: Seq<(ChatRole, Seq<char>)>,
    pub response: Seq<char>,
    pub prompt_user_id: Seq<char>,
    pub prompt_app_hostname: Seq<char>,
    pub prompt_submit_ts: Timestamp,
    pub response_receipt_ts: Timestamp,
    pub input_tokens: i64,
    pub output_tokens: i64,
    pub total_tokens: i64,
}

/// A partial update as values: `None` leaves a field as it is.
pub struct PatchFields {
    pub model_provider: Option<Seq<char>>,
    pub model_name: Option<Seq<char>>,
    pub model_version: Option<Seq<char>>,
    pub app_name: Option<Seq<char>>,
    pub app_project: Option<Seq<char>>,
    pub app_version: Option<Seq<char>>,
    pub prompt: Option<Seq<(ChatRole, Seq<char>)>>,
    pub response: Option<Seq<char>>,
    pub prompt_user_id: Option<Seq<char>>,
    pub prompt_app_hostname: Option<Seq<char>>,
    pub prompt_submit_ts: Option<Timestamp>,
    pub response_receipt_ts: Option<Timestamp>,
    pub input_tokens: Option<i64>,
    pub output_tokens: Option<i64>,
    pub total_tokens: Option<i64>,
}

/// The fields of a new record, as a caller supplies them for a creation or a
/// full replacement. `total_tokens` is kept as given, never derived.
#[derive(Debug, PartialEq, Eq)]
pub struct CreateLogRecord {
    pub model_provider: String,
    pub model_name: String,
    pub model_version: String,
    pub app_name: String,
    pub app_project: String,
    pub app_version: String,
    pub prompt: Vec<Prompt>,
    pub response: String,
    pub prompt_user_id: String,
    pub prompt_app_hostname: String,
    pub prompt_submit_ts: Timestamp,
    pub response_receipt_ts: Timestamp,
    pub input_tokens: i64,
    pub output_tokens: i64,
    pub total_tokens: i64,
}

/// A stored log record: its id and its fields.
#[derive(Debug, PartialEq, Eq)]
pub struct LogRecord {
    pub id: i64,
    pub model_provider: String,
    pub model_name: String,
    pub model_version: String,
    pub app_name: String,
    pub app_project: String,
    pub app_version: String,
    pub prompt: Vec<Prompt>,
    pub response: String,
    pub prompt_user_id: String,
    pub prompt_app_hostname: String,
    pub prompt_submit_ts: Timestamp,
    pub response_receipt_ts: Timestamp,
    pub input_tokens: i64,
    pub output_tokens: i64,
    pub total_tokens: i64,
}

/// A partial update: each present field replaces the record's, each absent
/// one leaves it unchanged. The id is never part of it.
#[derive(Debug, PartialEq, Eq)]
pub struct PatchLogRecord {
    pub model_provider: Option<String>,
    pub model_name: Option<String>,
    pub model_version: Option<String>,
    pub app_name: Option<String>,
    pub app_project: Option<String>,
    pub app_version: Option<String>,
    pub prompt: Option<Vec<Prompt>>,
    pub response: Option<String>,
    pub prompt_user_id: Option<String>,
    pub prompt_app_hostname: Option<String>,
    pub prompt_submit_ts: Option<Timestamp>,
    pub response_receipt_ts: Option<Timestamp>,
    pub input_tokens: Option<i64>,
    pub output_tokens: Option<i64>,
    pub total_tokens: Option<i64>,
}

/// The id handed back on creation.
#[derive(PartialEq, Eq, Structural, Clone, Copy, Debug)]
pub struct LogRecordResponse {
    pub id: i64,
}

/// A message reported to a caller on failure.
#[derive(Clone, Debug, PartialEq, Eq)]
pub struct ErrorMessage {
    pub message: String,
}

pub open spec fn opt_text(o: Option<String>) -> Option<Seq<char>> {
    match o {
        Some(s) => Some(s@),
        None => None,
    }
}

pub open spec fn opt_transcript(o: Option<Vec<Prompt>>) -> Option<Seq<(ChatRole, Seq<char>)>> {
    match o {
        Some(v) => Some(transcript_model(v@)),
        None => None,
    }
}

impl View for CreateLogRecord {
    type V = RecordFields;

    open spec fn view(&self) -> RecordFields {
        RecordFields {
            model_provider: self.model_provider@,
            model_name: self.model_name@,
            model_version: self.model_version@,
            app_name: self.app_name@,
            app_project: self.app_project@,
            app_version: self.app_version@,
            prompt: transcript_model(self.prompt@),
            response: self.response@,
            prompt_user_id: self.prompt_user_id@,
            prompt_app_hostname: self.prompt_app_hostname@,
            prompt_submit_ts: self.prompt_submit_ts,
            response_receipt_ts: self.response_receipt_ts,
            input_tokens: self.input_tokens,
            output_tokens: self.output_tokens,
            total_tokens: self.total_tokens,
        }
    }
}

impl View for LogRecord {
    type V = (i64, RecordFields);

    open spec fn view(&self) -> (i64, RecordFields) {
        (
            self.id,
            RecordFields {
                model_provider: self.model_provider@,
                model_name: self.model_name@,
                model_version: self.model_version@,
                app_name: self.app_name@,
                app_project: self.app_project@,
                app_version: self.app_version@,
                prompt: transcript_model(self.prompt@),
                response: self.response@,
                prompt_user_id: self.prompt_user_id@,
                prompt_app_hostname: self.prompt_app_hostname@,
                prompt_submit_ts: self.prompt_submit_ts,
                response_receipt_ts: self.response_receipt_ts,
                input_tokens: self.input_tokens,
                output_tokens: self.output_tokens,
                total_tokens: self.total_tokens,
            },
        )
    }
}

impl View for PatchLogRecord {
    type V = PatchFields;

    open spec fn view(&self) -> PatchFields {
        PatchFields {
            model_provider: opt_text(self.model_provider),
            model_name: opt_text(self.model_name),
            model_version: opt_text(self.model_version),
            app_name: opt_text(self.app_name),
            app_project: opt_text(self.app_project),
            app_version: opt_text(self.app_version),
            prompt: opt_transcript(self.prompt),
            response: opt_text(self.response),
            prompt_user_id: opt_text(self.prompt_user_id),
            prompt_app_hostname: opt_text(self.prompt_app_hostname),
            prompt_submit_ts: self.prompt_submit_ts,
            response_receipt_ts: self.response_receipt_ts,
            input_tokens: self.input_tokens,
            output_tokens: self.output_tokens,
            total_tokens: self.total_tokens,
        }
    }
}

/// Both timestamps name valid instants.
pub open spec fn fields_wf(f: RecordFields) -> bool {
    f.prompt_submit_ts.wf() && f.response_receipt_ts.wf()
}

/// Every timestamp present names a valid instant.
pub open spec fn patch_wf(p: PatchFields) -> bool {
    &&& (p.prompt_submit_ts matches Some(t) ==> t.wf())
    &&& (p.response_receipt_ts matches Some(t) ==> t.wf())
}

pub open spec fn pick<A>(o: Option<A>, d: A) -> A {
    match o {
        Some(v) => v,
        None => d,
    }
}

/// The record after a partial update: each present field of the patch
/// replaces the record's, each absent one keeps it.
pub open spec fn merged(f: RecordFields, p: PatchFields) -> RecordFields {
    RecordFields {
        model_provider: pick(p.model_provider, f.model_provider),
        model_name: pick(p.model_name, f.model_name),
        model_version: pick(p.model_version, f.model_version),
        app_name: pick(p.app_name, f.app_name),
        app_project: pick(p.app_project, f.app_project),
        app_version: pick(p.app_version, f.app_version),
        prompt: pick(p.prompt, f.prompt),
        response: pick(p.response, f.response),
        prompt_user_id: pick(p.prompt_user_id, f.prompt_user_id),
        prompt_app_hostname: pick(p.prompt_app_hostname, f.prompt_app_hostname),
        prompt_submit_ts: pick(p.prompt_submit_ts, f.prompt_submit_ts),
        response_receipt_ts: pick(p.response_receipt_ts, f.response_receipt_ts),
        input_tokens: pick(p.input_tokens, f.input_tokens),
        output_tokens: pick(p.output_tokens, f.output_tokens),
        total_tokens: pick(p.total_tokens, f.total_tokens),
    }
}

/// The patch with no field present.
pub open spec fn empty_patch() -> PatchFields {
    PatchFields {
        model_provider: None,
        model_name: None,
        model_version: None,
        app_name: None,
        app_project: None,
        app_version: None,
        prompt: None,
        response: None,
        prompt_user_id: None,
        prompt_app_hostname: None,
        prompt_submit_ts: None,
        response_receipt_ts: None,
        input_tokens: None,
        output_tokens: None,
        total_tokens: None,
    }
}

/// The patch with every field present, taken from `f`.
pub open spec fn full_patch(f: RecordFields) -> PatchFields {
    PatchFields {
        model_provider: Some(f.model_provider),
        model_name: Some(f.model_name),
        model_version: Some(f.model_version),
        app_name: Some(f.app_name),
        app_project: Some(f.app_project),
        app_version: Some(f.app_version),
        prompt: Some(f.prompt),
        response: Some(f.response),
        prompt_user_id: Some(f.prompt_user_id),
        prompt_app_hostname: Some(f.prompt_app_hostname),
        prompt_submit_ts: Some(f.prompt_submit_ts),
        response_receipt_ts: Some(f.response_receipt_ts),
        input_tokens: Some(f.input_tokens),
        output_tokens: Some(f.output_tokens),
        total_tokens: Some(f.total_tokens),
    }
}

impl PatchLogRecord {
    /// The patch with no field present.
    pub fn empty() -> (r: PatchLogRecord)
        ensures
            r@ == empty_patch(),
    {
        PatchLogRecord {
            model_provider: None,
            model_name: None,
            model_version: None,
            app_name: None,
            app_project: None,
            app_version: None,
            prompt: None,
            response: None,
            prompt_user_id: None,
            prompt_app_hostname: None,
            prompt_submit_ts: None,
            response_receipt_ts: None,
            input_tokens: None,
            output_tokens: None,
            total_tokens: None,
        }
    }

    /// Whether every timestamp present names a valid instant.
    pub fn timestamps_valid(&self) -> (r: bool)
        ensures
            r == patch_wf(self@),
    {
        let submit_ok = match self.prompt_submit_ts {
            Some(t) => t.is_valid(),
            None => true,
        };
        let receipt_ok = match self.response_receipt_ts {
            Some(t) => t.is_valid(),
            None => true,
        };
        submit_ok && receipt_ok
    }
}

impl CreateLogRecord {
    /// Whether both timestamps name valid instants.
    pub fn timestamps_valid(&self) -> (r: bool)
        ensures
            r == fields_wf(self@),
    {
        self.prompt_submit_ts.is_valid() && self.response_receipt_ts.is_valid()
    }
}

/// Merging the empty patch leaves any record as it is.
pub proof fn lemma_merge_identity(f: RecordFields)
    ensures
        merged(f, empty_patch()) == f,
{
}

/// Merging a patch in which only the response is present sets the response
/// and keeps every other field.
pub proof fn lemma_merge_response_only(f: RecordFields, x: Seq<char>)
    ensures
        merged(f, PatchFields { response: Some(x), ..empty_patch() }) == (RecordFields {
            response: x,
            ..f
        }),
{
}

/// Merging a patch in which every field is present gives that patch's fields.
pub proof fn lemma_merge_full_overwrite(f: RecordFields, g: RecordFields)
    ensures
        merged(f, full_patch(g)) == g,
{
}

/// A merge keeps valid timestamps valid.
pub proof fn lemma_merge_wf(f: RecordFields, p: PatchFields)
    requires
        fields_wf(f),
        patch_wf(p),
    ensures
        fields_wf(merged(f, p)),
{
}

/// The patch's value where it is present, else the current one.
fn keep_or<A>(o: Option<A>, current: A) -> (r: A)
    ensures
        r == pick(o, current),
{
    match o {
        Some(v) => v,
        None => current,
    }
}

/// Applies a partial update to a record: each present field of the patch
/// replaces the record's, each absent one keeps it; the id stays.
pub fn apply_patch(existing: LogRecord, patch: PatchLogRecord) -> (r: LogRecord)
    ensures
        r@ == (existing@.0, merged(existing@.1, patch@)),
{
    let r = LogRecord {
        id: existing.id,
        model_provider: keep_or(patch.model_provider, existing.model_provider),
        model_name: keep_or(patch.model_name, existing.model_name),
        model_version: keep_or(patch.model_version, existing.model_version),
        app_name: keep_or(patch.app_name, existing.app_name),
        app_project: keep_or(patch.app_project, existing.app_project),
        app_version: keep_or(patch.app_version, existing.app_version),
        prompt: keep_or(patch.prompt, existing.prompt),
        response: keep_or(patch.response, existing.response),
        prompt_user_id: keep_or(patch.prompt_user_id, existing.prompt_user_id),
        prompt_app_hostname: keep_or(patch.prompt_app_hostname, existing.prompt_app_hostname),
        prompt_submit_ts: keep_or(patch.prompt_submit_ts, existing.prompt_submit_ts),
        response_receipt_ts: keep_or(patch.response_receipt_ts, existing.response_receipt_ts),
        input_tokens: keep_or(patch.input_tokens, existing.input_tokens),
        output_tokens: keep_or(patch.output_tokens, existing.output_tokens),
        total_tokens: keep_or(patch.total_tokens, existing.total_tokens),
    };
    r
}

} // verus!
