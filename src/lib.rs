//! Structured logs of language-model invocations: the record model, the
//! storage encoding of transcripts and timestamps, the merge of partial
//! updates, and the persistence gateway over a keyed row store.
pub mod chat_role;
pub mod error;
pub mod gateway;
pub mod prompt;
pub mod record;
pub mod row;
pub mod timestamp;
pub mod transcript;
mod text;

pub use chat_role::ChatRole;
pub use error::CodecError;
pub use gateway::{patch_row, read_result, replace_row, GatewayError, MemoryStore};
pub use prompt::Prompt;
pub use record::{
    apply_patch, CreateLogRecord, ErrorMessage, LogRecord, LogRecordResponse, PatchLogRecord,
};
pub use row::StoredRow;
pub use timestamp::Timestamp;
pub use transcript::{decode_transcript, encode_transcript};
