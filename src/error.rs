use vstd::prelude::*;

verus! {

/// Field-level decoding failures, reported before any store is touched.
#[derive(PartialEq, Eq, Structural, Clone, Copy, Debug)]
pub enum CodecError {
    /// A role tag that is none of the known roles.
    InvalidRole,
    /// A timestamp text that is not in the canonical form, or names no instant.
    InvalidTimestamp,
    /// A transcript text that is not a JSON array of role/content objects.
    MalformedTranscript,
}

} // verus!
