use vstd::prelude::*;

use crate::error::CodecError;
use crate::record::{
    apply_patch,
    fields_wf,
    lemma_merge_wf,
    merged,
    patch_wf,
    CreateLogRecord,
    LogRecord,
    PatchLogRecord,
    RecordFields,
};
use crate::row::{
    fields_of_row,
    lemma_read_fields_wf,
    lemma_storage_round_trip,
    row_of_fields,
    RowModel,
    StoredRow,
};

verus! {

/// Why a gateway operation failed.
#[derive(Clone, Debug, PartialEq, Eq)]
pub enum GatewayError {
    /// No row has this id.
    NotFound(i64),
    /// The row store failed; its report, passed on unchanged.
    StoreError(String),
    /// The row with this id holds a value that does not read back: a store
    /// failure of the serialization kind.
    CorruptRow(i64, CodecError),
}

/// The outcome of reading record `id`, from what the row store answered to
/// the lookup: a failure, no row, or the row.
pub fn read_result(id: i64, fetched: Result<Option<StoredRow>, String>) -> (r: Result<
    LogRecord,
    GatewayError,
>)
    ensures
        match fetched {
            Err(m) => r == Err::<LogRecord, _>(GatewayError::StoreError(m)),
            Ok(None) => r == Err::<LogRecord, _>(GatewayError::NotFound(id)),
            Ok(Some(row)) => match fields_of_row(row@) {
                Ok(f) => r is Ok && r->Ok_0@ == (id, f),
                Err(e) => r == Err::<LogRecord, _>(GatewayError::CorruptRow(id, e)),
            },
        },
{
    match fetched {
        Err(m) => Err(GatewayError::StoreError(m)),
        Ok(None) => Err(GatewayError::NotFound(id)),
        Ok(Some(row)) => match LogRecord::from_row(id, &row) {
            Ok(rec) => Ok(rec),
            Err(e) => Err(GatewayError::CorruptRow(id, e)),
        },
    }
}

/// The row to write for a full replacement of record `id`, from what the row
/// store answered to the existence check: the record must exist.
pub fn replace_row(
    id: i64,
    fetched: Result<Option<StoredRow>, String>,
    payload: &CreateLogRecord,
) -> (r: Result<StoredRow, GatewayError>)
    requires
        payload.wf(),
    ensures
        match fetched {
            Err(m) => r == Err::<StoredRow, _>(GatewayError::StoreError(m)),
            Ok(None) => r == Err::<StoredRow, _>(GatewayError::NotFound(id)),
            Ok(Some(_)) => r is Ok && r->Ok_0@ == row_of_fields(payload@),
        },
{
    match fetched {
        Err(m) => Err(GatewayError::StoreError(m)),
        Ok(None) => Err(GatewayError::NotFound(id)),
        Ok(Some(_)) => Ok(payload.to_row()),
    }
}

/// The row to write for a partial update of record `id`, from what the row
/// store answered to the read: the stored record merged with the patch.
pub fn patch_row(id: i64, fetched: Result<Option<StoredRow>, String>, patch: PatchLogRecord) -> (r:
    Result<StoredRow, GatewayError>)
    requires
        patch_wf(patch@),
    ensures
        match fetched {
            Err(m) => r == Err::<StoredRow, _>(GatewayError::StoreError(m)),
            Ok(None) => r == Err::<StoredRow, _>(GatewayError::NotFound(id)),
            Ok(Some(row)) => match fields_of_row(row@) {
                Ok(f) => r is Ok && r->Ok_0@ == row_of_fields(merged(f, patch@)),
                Err(e) => r == Err::<StoredRow, _>(GatewayError::CorruptRow(id, e)),
            },
        },
{
    let ghost g = fetched;
    let existing = read_result(id, fetched)?;
    proof {
        if let Ok(Some(row)) = g {
            lemma_read_fields_wf(row@);
        }
        lemma_merge_wf(existing@.1, patch@);
    }
    let updated = apply_patch(existing, patch);
    Ok(updated.into_fields().to_row())
}

/// An in-process row store keyed as the log table is: ids are given in
/// sequence from 1 and rows are never removed.
pub struct MemoryStore {
    rows: Vec<StoredRow>,
}

impl View for MemoryStore {
    type V = Seq<RowModel>;

    /// The row of id `k + 1` stands at `k`.
    closed spec fn view(&self) -> Seq<RowModel> {
        self.rows@.map_values(|r: StoredRow| r@)
    }
}

/// Whether `id` names a row of a store holding `rows`.
pub open spec fn has_id(rows: Seq<RowModel>, id: i64) -> bool {
    1 <= id <= rows.len()
}

impl MemoryStore {
    pub fn new() -> (r: MemoryStore)
        ensures
            r@ == Seq::<RowModel>::empty(),
    {
        let r = MemoryStore { rows: Vec::new() };
        assert(r@ =~= Seq::<RowModel>::empty());
        r
    }

    /// The number of rows.
    pub fn len(&self) -> (r: usize)
        ensures
            r == self@.len(),
    {
        self.rows.len()
    }

    /// The lookup by id: a copy of the row, or none.
    fn fetch(&self, id: i64) -> (r: Result<Option<StoredRow>, String>)
        ensures
            r is Ok,
            has_id(self@, id) ==> r->Ok_0 is Some && r->Ok_0->Some_0@ == self@[id - 1],
            !has_id(self@, id) ==> r->Ok_0 is None,
    {
        if id >= 1 && ((id - 1) as u64) < (self.rows.len() as u64) {
            let k = (id - 1) as usize;
            Ok(Some(self.rows[k].duplicate()))
        } else {
            Ok(None)
        }
    }

    fn write(&mut self, id: i64, row: StoredRow)
        requires
            has_id(old(self)@, id),
        ensures
            final(self)@ == old(self)@.update(id - 1, row@),
    {
        let n = self.rows.len();
        assert(id - 1 < n);
        let k = (id - 1) as usize;
        let ghost m = row@;
        self.rows.set(k, row);
        assert(self@ =~= old(self)@.update(id - 1, m));
    }

    /// Adds a row for a new record and returns its id, the next in sequence.
    /// Fails only when no id is left.
    pub fn create(&mut self, payload: &CreateLogRecord) -> (r: Result<i64, GatewayError>)
        requires
            payload.wf(),
        ensures
            r is Ok <==> old(self)@.len() < i64::MAX,
            match r {
                Ok(id) => id == old(self)@.len() + 1 && final(self)@ == old(self)@.push(
                    row_of_fields(payload@),
                ),
                Err(e) => e is StoreError && final(self)@ == old(self)@,
            },
    {
        if (self.rows.len() as u64) >= (i64::MAX as u64) {
            return Err(GatewayError::StoreError(String::from_str("no id is left")));
        }
        let id = (self.rows.len() as i64) + 1;
        let row = payload.to_row();
        let ghost m = row@;
        self.rows.push(row);
        assert(self@ =~= old(self)@.push(m));
        Ok(id)
    }

    /// Reads record `id`.
    pub fn read(&self, id: i64) -> (r: Result<LogRecord, GatewayError>)
        ensures
            has_id(self@, id) ==> match fields_of_row(self@[id - 1]) {
                Ok(f) => r is Ok && r->Ok_0@ == (id, f),
                Err(e) => r == Err::<LogRecord, _>(GatewayError::CorruptRow(id, e)),
            },
            !has_id(self@, id) ==> r == Err::<LogRecord, _>(GatewayError::NotFound(id)),
    {
        read_result(id, self.fetch(id))
    }

    /// Overwrites every field of record `id` and returns the stored record.
    pub fn replace(&mut self, id: i64, payload: &CreateLogRecord) -> (r: Result<
        LogRecord,
        GatewayError,
    >)
        requires
            payload.wf(),
        ensures
            has_id(old(self)@, id) ==> final(self)@ == old(self)@.update(
                id - 1,
                row_of_fields(payload@),
            ) && r is Ok && r->Ok_0@ == (id, payload@),
            !has_id(old(self)@, id) ==> final(self)@ == old(self)@ && r == Err::<
                LogRecord,
                _,
            >(GatewayError::NotFound(id)),
    {
        let row = replace_row(id, self.fetch(id), payload)?;
        self.write(id, row);
        proof {
            lemma_storage_round_trip(payload@);
        }
        read_result(id, self.fetch(id))
    }

    /// Merges a partial update into record `id` and returns the stored record.
    pub fn patch(&mut self, id: i64, patch: PatchLogRecord) -> (r: Result<LogRecord, GatewayError>)
        requires
            patch_wf(patch@),
        ensures
            has_id(old(self)@, id) ==> match fields_of_row(old(self)@[id - 1]) {
                Ok(f) => final(self)@ == old(self)@.update(
                    id - 1,
                    row_of_fields(merged(f, patch@)),
                ) && r is Ok && r->Ok_0@ == (id, merged(f, patch@)),
                Err(e) => final(self)@ == old(self)@ && r == Err::<LogRecord, _>(
                    GatewayError::CorruptRow(id, e),
                ),
            },
            !has_id(old(self)@, id) ==> final(self)@ == old(self)@ && r == Err::<
                LogRecord,
                _,
            >(GatewayError::NotFound(id)),
    {
        let ghost p = patch@;
        let row = patch_row(id, self.fetch(id), patch)?;
        self.write(id, row);
        proof {
            if let Ok(f) = fields_of_row(old(self)@[id - 1]) {
                lemma_read_fields_wf(old(self)@[id - 1]);
                lemma_merge_wf(f, p);
                lemma_storage_round_trip(merged(f, p));
            }
        }
        read_result(id, self.fetch(id))
    }
}

} // verus!
