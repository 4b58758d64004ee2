use vstd::prelude::*;

use crate::error::CodecError;
use crate::prompt::transcript_model;
use crate::record::{fields_wf, CreateLogRecord, LogRecord, RecordFields};
use crate::timestamp::{lemma_timestamp_round_trip, timestamp_of_text, timestamp_text, Timestamp};
use crate::transcript::{
    decode_transcript,
    encode_transcript,
    lemma_transcript_round_trip,
    transcript_of_text,
    transcript_text,
};

verus! {

/// One row of the log table: a record's fields in their stored form. The
/// transcript is its JSON text, the timestamps their canonical text.
#[derive(Clone, Debug, PartialEq, Eq)]
pub struct StoredRow {
    pub model_provider: String,
    pub model_name: String,
    pub model_version: String,
    pub app_name: String,
    pub app_project: String,
    pub app_version: String,
    pub prompt: String,
    pub response: String,
    pub prompt_user_id: String,
    pub prompt_app_hostname: String,
    pub prompt_submit_ts: String,
    pub response_receipt_ts: String,
    pub input_tokens: i64,
    pub output_tokens: i64,
    pub total_tokens: i64,
}

/// A stored row as values.
pub struct RowModel {
    pub model_provider: Seq<char>,
    pub model_name: Seq<char>,
    pub model_version: Seq<char>,
    pub app_name: Seq<char>,
    pub app_project: Seq<char>,
    pub app_version: Seq<char>,
    pub prompt: Seq<char>,
    pub response: Seq<char>,
    pub prompt_user_id: Seq<char>,
    pub prompt_app_hostname: Seq<char>,
    pub prompt_submit_ts: Seq<char>,
    pub response_receipt_ts: Seq<char>,
    pub input_tokens: i64,
    pub output_tokens: i64,
    pub total_tokens: i64,
}

impl View for StoredRow {
    type V = RowModel;

    open spec fn view(&self) -> RowModel {
        RowModel {
            model_provider: self.model_provider@,
            model_name: self.model_name@,
            model_version: self.model_version@,
            app_name: self.app_name@,
            app_project: self.app_project@,
            app_version: self.app_version@,
            prompt: self.prompt@,
            response: self.response@,
            prompt_user_id: self.prompt_user_id@,
            prompt_app_hostname: self.prompt_app_hostname@,
            prompt_submit_ts: self.prompt_submit_ts@,
            response_receipt_ts: self.response_receipt_ts@,
            input_tokens: self.input_tokens,
            output_tokens: self.output_tokens,
            total_tokens: self.total_tokens,
        }
    }
}

/// The stored form of a record's fields.
pub open spec fn row_of_fields(f: RecordFields) -> RowModel {
    RowModel {
        model_provider: f.model_provider,
        model_name: f.model_name,
        model_version: f.model_version,
        app_name: f.app_name,
        app_project: f.app_project,
        app_version: f.app_version,
        prompt: transcript_text(f.prompt),
        response: f.response,
        prompt_user_id: f.prompt_user_id,
        prompt_app_hostname: f.prompt_app_hostname,
        prompt_submit_ts: timestamp_text(f.prompt_submit_ts),
        response_receipt_ts: timestamp_text(f.response_receipt_ts),
        input_tokens: f.input_tokens,
        output_tokens: f.output_tokens,
        total_tokens: f.total_tokens,
    }
}

pub open spec fn fields_with(
    r: RowModel,
    prompt: Seq<(crate::chat_role::ChatRole, Seq<char>)>,
    submit: Timestamp,
    receipt: Timestamp,
) -> RecordFields {
    RecordFields {
        model_provider: r.model_provider,
        model_name: r.model_name,
        model_version: r.model_version,
        app_name: r.app_name,
        app_project: r.app_project,
        app_version: r.app_version,
        prompt,
        response: r.response,
        prompt_user_id: r.prompt_user_id,
        prompt_app_hostname: r.prompt_app_hostname,
        prompt_submit_ts: submit,
        response_receipt_ts: receipt,
        input_tokens: r.input_tokens,
        output_tokens: r.output_tokens,
        total_tokens: r.total_tokens,
    }
}

/// What reading a stored row yields: its fields, or the first failure among
/// the transcript, the submission time and the receipt time, in that order.
pub open spec fn fields_of_row(r: RowModel) -> Result<RecordFields, CodecError> {
    match transcript_of_text(r.prompt) {
        Err(e) => Err(e),
        Ok(prompt) => match timestamp_of_text(r.prompt_submit_ts) {
            Err(e) => Err(e),
            Ok(submit) => match timestamp_of_text(r.response_receipt_ts) {
                Err(e) => Err(e),
                Ok(receipt) => Ok(fields_with(r, prompt, submit, receipt)),
            },
        },
    }
}

/// Storing a record's fields and reading them back gives the same fields:
/// transcript order and content, and the timestamps, are kept.
pub proof fn lemma_storage_round_trip(f: RecordFields)
    requires
        fields_wf(f),
    ensures
        fields_of_row(row_of_fields(f)) == Ok::<_, CodecError>(f),
{
    lemma_transcript_round_trip(f.prompt);
    lemma_timestamp_round_trip(f.prompt_submit_ts);
    lemma_timestamp_round_trip(f.response_receipt_ts);
}

/// Whatever is read from a stored row has valid timestamps.
pub proof fn lemma_read_fields_wf(r: RowModel)
    requires
        fields_of_row(r) is Ok,
    ensures
        fields_wf(fields_of_row(r)->Ok_0),
{
}

impl StoredRow {
    /// A copy of this row.
    pub fn duplicate(&self) -> (r: StoredRow)
        ensures
            r@ == self@,
    {
        StoredRow {
            model_provider: self.model_provider.clone(),
            model_name: self.model_name.clone(),
            model_version: self.model_version.clone(),
            app_name: self.app_name.clone(),
            app_project: self.app_project.clone(),
            app_version: self.app_version.clone(),
            prompt: self.prompt.clone(),
            response: self.response.clone(),
            prompt_user_id: self.prompt_user_id.clone(),
            prompt_app_hostname: self.prompt_app_hostname.clone(),
            prompt_submit_ts: self.prompt_submit_ts.clone(),
            response_receipt_ts: self.response_receipt_ts.clone(),
            input_tokens: self.input_tokens,
            output_tokens: self.output_tokens,
            total_tokens: self.total_tokens,
        }
    }
}

impl CreateLogRecord {
    /// Both timestamps name valid instants.
    pub open spec fn wf(&self) -> bool {
        fields_wf(self@)
    }

    /// The stored form of these fields.
    pub fn to_row(&self) -> (r: StoredRow)
        requires
            self.wf(),
        ensures
            r@ == row_of_fields(self@),
    {
        StoredRow {
            model_provider: self.model_provider.clone(),
            model_name: self.model_name.clone(),
            model_version: self.model_version.clone(),
            app_name: self.app_name.clone(),
            app_project: self.app_project.clone(),
            app_version: self.app_version.clone(),
            prompt: encode_transcript(&self.prompt),
            response: self.response.clone(),
            prompt_user_id: self.prompt_user_id.clone(),
            prompt_app_hostname: self.prompt_app_hostname.clone(),
            prompt_submit_ts: self.prompt_submit_ts.to_text(),
            response_receipt_ts: self.response_receipt_ts.to_text(),
            input_tokens: self.input_tokens,
            output_tokens: self.output_tokens,
            total_tokens: self.total_tokens,
        }
    }

    /// Reads fields back from their stored form, as `fields_of_row` says.
    pub fn from_row(row: &StoredRow) -> (r: Result<CreateLogRecord, CodecError>)
        ensures
            match r {
                Ok(c) => fields_of_row(row@) == Ok::<_, CodecError>(c@),
                Err(e) => fields_of_row(row@) == Err::<RecordFields, _>(e),
            },
    {
        let prompt = decode_transcript(row.prompt.as_str())?;
        let prompt_submit_ts = Timestamp::parse(row.prompt_submit_ts.as_str())?;
        let response_receipt_ts = Timestamp::parse(row.response_receipt_ts.as_str())?;
        let c = CreateLogRecord {
            model_provider: row.model_provider.clone(),
            model_name: row.model_name.clone(),
            model_version: row.model_version.clone(),
            app_name: row.app_name.clone(),
            app_project: row.app_project.clone(),
            app_version: row.app_version.clone(),
            prompt,
            response: row.response.clone(),
            prompt_user_id: row.prompt_user_id.clone(),
            prompt_app_hostname: row.prompt_app_hostname.clone(),
            prompt_submit_ts,
            response_receipt_ts,
            input_tokens: row.input_tokens,
            output_tokens: row.output_tokens,
            total_tokens: row.total_tokens,
        };
        Ok(c)
    }
}

impl LogRecord {
    /// The record with id `id` and the given fields.
    pub fn with_id(id: i64, fields: CreateLogRecord) -> (r: LogRecord)
        ensures
            r@ == (id, fields@),
    {
        LogRecord {
            id,
            model_provider: fields.model_provider,
            model_name: fields.model_name,
            model_version: fields.model_version,
            app_name: fields.app_name,
            app_project: fields.app_project,
            app_version: fields.app_version,
            prompt: fields.prompt,
            response: fields.response,
            prompt_user_id: fields.prompt_user_id,
            prompt_app_hostname: fields.prompt_app_hostname,
            prompt_submit_ts: fields.prompt_submit_ts,
            response_receipt_ts: fields.response_receipt_ts,
            input_tokens: fields.input_tokens,
            output_tokens: fields.output_tokens,
            total_tokens: fields.total_tokens,
        }
    }

    /// The record's fields without its id.
    pub fn into_fields(self) -> (r: CreateLogRecord)
        ensures
            r@ == self@.1,
    {
        CreateLogRecord {
            model_provider: self.model_provider,
            model_name: self.model_name,
            model_version: self.model_version,
            app_name: self.app_name,
            app_project: self.app_project,
            app_version: self.app_version,
            prompt: self.prompt,
            response: self.response,
            prompt_user_id: self.prompt_user_id,
            prompt_app_hostname: self.prompt_app_hostname,
            prompt_submit_ts: self.prompt_submit_ts,
            response_receipt_ts: self.response_receipt_ts,
            input_tokens: self.input_tokens,
            output_tokens: self.output_tokens,
            total_tokens: self.total_tokens,
        }
    }

    /// Reads the record with id `id` from its stored row.
    pub fn from_row(id: i64, row: &StoredRow) -> (r: Result<LogRecord, CodecError>)
        ensures
            match r {
                Ok(rec) => rec.id == id && fields_of_row(row@) == Ok::<_, CodecError>(rec@.1),
                Err(e) => fields_of_row(row@) == Err::<RecordFields, _>(e),
            },
    {
        let fields = CreateLogRecord::from_row(row)?;
        Ok(LogRecord::with_id(id, fields))
    }
}

} // verus!
