//! The table of processing records: one record for each caller and key, first
//! without a response (the command is in flight), later with the response that
//! the command produced.

use crate::idempotency::key::IdempotencyKey;
use crate::idempotency::response::{
    copy_bytes, copy_headers, headers_view, HeaderPair, ResponseView, StoredResponse,
};
use crate::text::str_eq;
use vstd::prelude::*;
use vstd::string::*;

verus! {

/// What identifies a processing record: the caller and the key's text.
pub type RecordKey = (u128, Seq<char>);

/// What a processing record holds beside its key. A record without a response
/// belongs to a command that is still in flight.
pub struct RecordView {
    pub created_at: i64,
    pub response: Option<ResponseView>,
}

/// One row of the table.
#[derive(Debug)]
pub struct ProcessingRecord {
    pub user_id: u128,
    pub idempotency_key: String,
    pub created_at: i64,
    pub response: Option<StoredResponse>,
}

impl ProcessingRecord {
    /// The caller and key under which the record is filed.
    pub open spec fn key(&self) -> RecordKey {
        (self.user_id, self.idempotency_key@)
    }
}

impl View for ProcessingRecord {
    type V = RecordView;

    open spec fn view(&self) -> RecordView {
        RecordView {
            created_at: self.created_at,
            response: match self.response {
                Some(stored) => Some(stored@),
                None => None,
            },
        }
    }
}

/// No two rows are filed under the same caller and key.
pub open spec fn distinct_keys(rows: Seq<ProcessingRecord>) -> bool {
    forall|i: int, j: int|
        0 <= i < rows.len() && 0 <= j < rows.len() && i != j ==> (#[trigger] rows[i]).key() != (
        #[trigger] rows[j]).key()
}

/// Whether some row is filed under `k`.
pub open spec fn has_row(rows: Seq<ProcessingRecord>, k: RecordKey) -> bool {
    exists|i: int| 0 <= i < rows.len() && (#[trigger] rows[i]).key() == k
}

/// The position of a row filed under `k`.
pub open spec fn row_of(rows: Seq<ProcessingRecord>, k: RecordKey) -> int {
    choose|i: int| 0 <= i < rows.len() && (#[trigger] rows[i]).key() == k
}

/// The rows as a map from key to record.
pub open spec fn records_of(rows: Seq<ProcessingRecord>) -> Map<RecordKey, RecordView> {
    Map::new(|k: RecordKey| has_row(rows, k), |k: RecordKey| rows[row_of(rows, k)]@)
}

/// What a look-up finds under a caller and key.
#[derive(Debug)]
pub enum RecordStatus {
    /// No record: the command was never begun.
    Absent,
    /// A record without a response: the command is in flight.
    InFlight,
    /// A record with the stored response of the finished command.
    Completed(StoredResponse),
}

/// The status that a map of records gives to `k`.
pub open spec fn status_of(records: Map<RecordKey, RecordView>, k: RecordKey) -> Option<
    Option<ResponseView>,
> {
    if records.contains_key(k) {
        Some(records[k].response)
    } else {
        None
    }
}

impl RecordStatus {
    /// Reads the response columns of a record that was found. The columns
    /// are filled together when the command finishes: a record with an empty
    /// column is in flight.
    pub fn of_columns(status_code: Option<i16>, headers: Option<Vec<HeaderPair>>, body: Option<Vec<u8>>) -> (status:
        RecordStatus)
        ensures
            match (status_code, headers, body) {
                (Some(code), Some(pairs), Some(bytes)) => status.view() == Some(
                    Some(
                        ResponseView {
                            status_code: code as int,
                            headers: headers_view(pairs@),
                            body: bytes@,
                        },
                    ),
                ),
                _ => status.view() == Some(None::<ResponseView>),
            },
    {
        match (status_code, headers, body) {
            (Some(code), Some(pairs), Some(bytes)) => RecordStatus::Completed(
                StoredResponse { status_code: code, headers: pairs, body: bytes },
            ),
            _ => RecordStatus::InFlight,
        }
    }

    /// The status as plain values: `None` for no record, `Some(None)` for one
    /// in flight, `Some(Some(..))` for a finished one.
    pub open spec fn view(&self) -> Option<Option<ResponseView>> {
        match self {
            RecordStatus::Absent => None,
            RecordStatus::InFlight => Some(None),
            RecordStatus::Completed(stored) => Some(Some(stored@)),
        }
    }
}

/// Adding a row under a new key adds that key to the map.
proof fn lemma_push_row(rows: Seq<ProcessingRecord>, row: ProcessingRecord)
    requires
        distinct_keys(rows),
        !has_row(rows, row.key()),
    ensures
        distinct_keys(rows.push(row)),
        records_of(rows.push(row)) == records_of(rows).insert(row.key(), row@),
{
    let after = rows.push(row);
    assert(after[rows.len() as int] == row);
    assert forall|k: RecordKey| has_row(after, k) <==> (k == row.key() || has_row(rows, k)) by {
        if has_row(after, k) {
            let i = row_of(after, k);
            if i < rows.len() {
                assert(rows[i].key() == k);
            }
        }
        if has_row(rows, k) {
            let i = row_of(rows, k);
            assert(after[i].key() == k);
        }
        if k == row.key() {
            assert(after[rows.len() as int].key() == k);
        }
    }
    assert forall|k: RecordKey| has_row(after, k) implies #[trigger] records_of(after)[k]
        == records_of(rows).insert(row.key(), row@)[k] by {
        let i = row_of(after, k);
        if k == row.key() {
            if i < rows.len() {
                assert(rows[i].key() == k);
            }
        } else {
            let j = row_of(rows, k);
            assert(after[j].key() == k);
            assert(after[i].key() == after[j].key());
        }
    }
    assert(records_of(after) =~= records_of(rows).insert(row.key(), row@));
}

/// Replacing a row by one with the same key replaces its entry in the map.
proof fn lemma_update_row(rows: Seq<ProcessingRecord>, at: int, row: ProcessingRecord)
    requires
        distinct_keys(rows),
        0 <= at < rows.len(),
        rows[at].key() == row.key(),
    ensures
        distinct_keys(rows.update(at, row)),
        records_of(rows.update(at, row)) == records_of(rows).insert(row.key(), row@),
{
    let after = rows.update(at, row);
    assert forall|i: int| 0 <= i < rows.len() implies (#[trigger] after[i]).key() == rows[i].key() by {}
    assert forall|k: RecordKey| has_row(after, k) <==> has_row(rows, k) by {
        if has_row(after, k) {
            let i = row_of(after, k);
            assert(rows[i].key() == k);
        }
        if has_row(rows, k) {
            let i = row_of(rows, k);
            assert(after[i].key() == k);
        }
    }
    assert(has_row(rows, row.key())) by {
        assert(rows[at].key() == row.key());
    }
    assert forall|k: RecordKey| has_row(after, k) implies #[trigger] records_of(after)[k]
        == records_of(rows).insert(row.key(), row@)[k] by {
        let i = row_of(after, k);
        assert(rows[i].key() == k);
        if k == row.key() {
            assert(i == at);
        } else {
            let j = row_of(rows, k);
            assert(i == j);
        }
    }
    assert(records_of(after) =~= records_of(rows).insert(row.key(), row@));
}

/// Taking a row out takes its key out of the map.
proof fn lemma_remove_row(rows: Seq<ProcessingRecord>, at: int)
    requires
        distinct_keys(rows),
        0 <= at < rows.len(),
    ensures
        distinct_keys(rows.remove(at)),
        records_of(rows.remove(at)) == records_of(rows).remove(rows[at].key()),
{
    let after = rows.remove(at);
    let gone = rows[at].key();
    assert forall|i: int| 0 <= i < after.len() implies #[trigger] after[i] == rows[if i < at {
        i
    } else {
        i + 1
    }] by {}
    assert forall|k: RecordKey| has_row(after, k) <==> (k != gone && has_row(rows, k)) by {
        if has_row(after, k) {
            let i = row_of(after, k);
            let i0 = if i < at {
                i
            } else {
                i + 1
            };
            assert(rows[i0].key() == k);
        }
        if k != gone && has_row(rows, k) {
            let i = row_of(rows, k);
            let i1 = if i < at {
                i
            } else {
                i - 1
            };
            assert(after[i1].key() == k);
        }
    }
    assert forall|k: RecordKey| has_row(after, k) implies #[trigger] records_of(after)[k]
        == records_of(rows).remove(gone)[k] by {
        let i = row_of(after, k);
        let i0 = if i < at {
            i
        } else {
            i + 1
        };
        assert(rows[i0].key() == k);
        let j = row_of(rows, k);
        assert(i0 == j);
    }
    assert(records_of(after) =~= records_of(rows).remove(gone));
}

/// The table of processing records. No two records share caller and key, so a
/// second insertion under the same pair is refused: that refusal is what
/// keeps a command from being processed twice.
#[derive(Debug)]
pub struct IdempotencyStore {
    rows: Vec<ProcessingRecord>,
}

impl View for IdempotencyStore {
    type V = Map<RecordKey, RecordView>;

    closed spec fn view(&self) -> Map<RecordKey, RecordView> {
        records_of(self.rows@)
    }
}

impl IdempotencyStore {
    /// The table's invariant: no two records share caller and key.
    pub closed spec fn wf(&self) -> bool {
        distinct_keys(self.rows@)
    }

    /// A table without records.
    pub fn new() -> (store: IdempotencyStore)
        ensures
            store.wf(),
            store@ == Map::<RecordKey, RecordView>::empty(),
    {
        let store = IdempotencyStore { rows: Vec::new() };
        assert(store@ =~= Map::<RecordKey, RecordView>::empty());
        store
    }

    /// The number of records.
    pub fn len(&self) -> (n: usize)
        requires
            self.wf(),
        ensures
            n == self@.dom().len(),
            self@.dom().finite(),
    {
        proof {
            lemma_row_count(self.rows@);
        }
        self.rows.len()
    }

    /// The position of the row under the caller and key, if there is one.
    fn position(&self, user_id: u128, key: &str) -> (at: Option<usize>)
        ensures
            match at {
                Some(i) => i < self.rows.len() && self.rows@[i as int].key() == (user_id, key@),
                None => !has_row(self.rows@, (user_id, key@)),
            },
    {
        let mut i: usize = 0;
        while i < self.rows.len()
            invariant
                i <= self.rows.len(),
                forall|j: int| 0 <= j < i ==> (#[trigger] self.rows@[j]).key() != (user_id, key@),
            decreases self.rows.len() - i,
        {
            if self.rows[i].user_id == user_id && str_eq(self.rows[i].idempotency_key.as_str(), key) {
                return Some(i);
            }
            i += 1;
        }
        None
    }

    /// Files a record without a response under the caller and key, unless one
    /// is there already. Returns the number of records inserted, 1 or 0; with
    /// 0 the table is unchanged.
    pub fn insert_in_flight(&mut self, user_id: u128, key: &IdempotencyKey, created_at: i64) -> (inserted:
        u64)
        requires
            old(self).wf(),
        ensures
            final(self).wf(),
            old(self)@.contains_key((user_id, key@)) ==> inserted == 0 && final(self)@ == old(self)@,
            !old(self)@.contains_key((user_id, key@)) ==> inserted == 1 && final(self)@ == old(
                self,
            )@.insert((user_id, key@), RecordView { created_at, response: None }),
    {
        match self.position(user_id, key.as_str()) {
            Some(_) => 0,
            None => {
                let row = ProcessingRecord {
                    user_id,
                    idempotency_key: key.as_str().to_owned(),
                    created_at,
                    response: None,
                };
                proof {
                    lemma_push_row(self.rows@, row);
                }
                self.rows.push(row);
                1
            },
        }
    }

    /// What is filed under the caller and key.
    pub fn status(&self, user_id: u128, key: &IdempotencyKey) -> (status: RecordStatus)
        requires
            self.wf(),
        ensures
            status.view() == status_of(self@, (user_id, key@)),
    {
        match self.position(user_id, key.as_str()) {
            None => RecordStatus::Absent,
            Some(i) => {
                proof {
                    let k = (user_id, key@);
                    assert(has_row(self.rows@, k));
                    assert(row_of(self.rows@, k) == i);
                }
                match &self.rows[i].response {
                    None => RecordStatus::InFlight,
                    Some(stored) => RecordStatus::Completed(
                        StoredResponse {
                            status_code: stored.status_code,
                            headers: copy_headers(&stored.headers),
                            body: copy_bytes(&stored.body),
                        },
                    ),
                }
            },
        }
    }

    /// Writes the response into the record under the caller and key. Returns
    /// the number of records updated, 1 or 0; with 0 there is no such record
    /// and the table is unchanged.
    pub fn set_response(&mut self, user_id: u128, key: &IdempotencyKey, response: StoredResponse) -> (updated:
        u64)
        requires
            old(self).wf(),
        ensures
            final(self).wf(),
            !old(self)@.contains_key((user_id, key@)) ==> updated == 0 && final(self)@ == old(self)@,
            old(self)@.contains_key((user_id, key@)) ==> updated == 1 && final(self)@ == old(
                self,
            )@.insert(
                (user_id, key@),
                RecordView {
                    created_at: old(self)@[(user_id, key@)].created_at,
                    response: Some(response@),
                },
            ),
    {
        match self.position(user_id, key.as_str()) {
            None => 0,
            Some(i) => {
                let ghost k = (user_id, key@);
                proof {
                    assert(has_row(self.rows@, k));
                    assert(row_of(self.rows@, k) == i);
                }
                let row = ProcessingRecord {
                    user_id,
                    idempotency_key: key.as_str().to_owned(),
                    created_at: self.rows[i].created_at,
                    response: Some(response),
                };
                proof {
                    lemma_update_row(self.rows@, i as int, row);
                }
                self.rows.set(i, row);
                1
            },
        }
    }

    /// Takes the record under the caller and key out of the table, if there is
    /// one: the command under it counts as never begun.
    pub fn remove(&mut self, user_id: u128, key: &IdempotencyKey)
        requires
            old(self).wf(),
        ensures
            final(self).wf(),
            final(self)@ == old(self)@.remove((user_id, key@)),
    {
        match self.position(user_id, key.as_str()) {
            None => {
                assert(old(self)@.remove((user_id, key@)) =~= old(self)@);
            },
            Some(i) => {
                proof {
                    lemma_remove_row(self.rows@, i as int);
                }
                self.rows.remove(i);
            },
        }
    }
}

/// With distinct keys there are as many keys as rows.
proof fn lemma_row_count(rows: Seq<ProcessingRecord>)
    requires
        distinct_keys(rows),
    ensures
        records_of(rows).dom().finite(),
        records_of(rows).dom().len() == rows.len(),
    decreases rows.len(),
{
    if rows.len() == 0 {
        assert(records_of(rows).dom() =~= Set::<RecordKey>::empty());
    } else {
        let front = rows.drop_last();
        let last = rows.last();
        assert forall|i: int, j: int|
            0 <= i < front.len() && 0 <= j < front.len() && i != j implies (#[trigger] front[i]).key()
            != (#[trigger] front[j]).key() by {
            assert(front[i] == rows[i]);
            assert(front[j] == rows[j]);
        }
        lemma_row_count(front);
        if has_row(front, last.key()) {
            let i = row_of(front, last.key());
            assert(rows[i].key() == rows[rows.len() - 1].key());
        }
        lemma_push_row(front, last);
        assert(front.push(last) == rows);
        assert(records_of(rows).dom() =~= records_of(front).dom().insert(last.key()));
    }
}

} // verus!
