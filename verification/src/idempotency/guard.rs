//! The two steps that make a command idempotent: `try_processing` before the
//! command's work and `save_response` after it.
//!
//! A duplicate that arrives while the first submission is still at work is
//! not made to wait. It is told at once that the command is in progress
//! (`ConflictInProgress`, answered with status 409) and changes nothing; the
//! caller may submit it again, and once the first submission has finished it
//! gets the saved response.

use crate::database::{
    committed, rolled_back, CommitError, Database, DatabaseView, Transaction, TransactionView,
    WritesView,
};
use crate::idempotency::key::IdempotencyKey;
use crate::idempotency::persistence::{status_of, RecordStatus, RecordView};
use crate::idempotency::response::{replay_fault, ReplayError, ResponseView, SavedHttpResponse};
use vstd::prelude::*;

verus! {

/// Why a command that was submitted before cannot be answered from the store.
#[derive(Clone, Copy, Debug, PartialEq, Eq, Structural)]
pub enum IdempotencyError {
    /// The first submission of the command is still being processed: its
    /// record has no response yet. The caller may try again later.
    ConflictInProgress,
    /// The record that the refused insertion should have left is not there: a
    /// fault of the server.
    MissingRecord,
    /// The stored response is damaged: a fault of the server.
    MalformedResponse(ReplayError),
}

impl IdempotencyError {
    /// The HTTP status with which the error is answered: 409 for a command in
    /// progress, 500 for a fault of the server.
    pub fn status_code(&self) -> (code: u16)
        ensures
            code == (match self {
                IdempotencyError::ConflictInProgress => 409u16,
                IdempotencyError::MissingRecord => 500u16,
                IdempotencyError::MalformedResponse(_) => 500u16,
            }),
    {
        match self {
            IdempotencyError::ConflictInProgress => 409,
            IdempotencyError::MissingRecord => 500,
            IdempotencyError::MalformedResponse(_) => 500,
        }
    }
}

/// What to do with a command that has arrived.
#[derive(Debug)]
pub enum NextAction {
    /// The command is new: do its work inside this transaction, then save the
    /// response.
    StartProcessing(Transaction),
    /// The command was processed before: answer with this response and do
    /// nothing else.
    ReturnSavedResponse(SavedHttpResponse),
}

/// What a `NextAction` holds.
pub enum NextActionView {
    StartProcessing(TransactionView),
    ReturnSavedResponse(ResponseView),
}

impl View for NextAction {
    type V = NextActionView;

    open spec fn view(&self) -> NextActionView {
        match self {
            NextAction::StartProcessing(transaction) => NextActionView::StartProcessing(
                transaction@,
            ),
            NextAction::ReturnSavedResponse(response) => NextActionView::ReturnSavedResponse(
                response@,
            ),
        }
    }
}

/// The response with which a repeated command is answered, given what the
/// store holds under its caller and key.
pub open spec fn saved_response_of(status: Option<Option<ResponseView>>) -> Result<
    ResponseView,
    IdempotencyError,
> {
    match status {
        None => Err(IdempotencyError::MissingRecord),
        Some(None) => Err(IdempotencyError::ConflictInProgress),
        Some(Some(stored)) => match replay_fault(stored) {
            None => Ok(stored),
            Some(fault) => Err(IdempotencyError::MalformedResponse(fault)),
        },
    }
}

/// The first step of a command under caller `user_id` and key `key`, arriving
/// at time `now`. Where the store has no record of it, a record without a
/// response is filed and processing starts in a new transaction. Otherwise
/// the store is left as it is, and the command is answered with the saved
/// response or fails for the reason that `saved_response_of` gives.
pub open spec fn try_processing_spec(db: DatabaseView, user_id: u128, key: Seq<char>, now: i64) -> (
    DatabaseView,
    Result<NextActionView, IdempotencyError>,
) {
    let k = (user_id, key);
    if !db.records.contains_key(k) {
        (
            DatabaseView {
                records: db.records.insert(k, RecordView { created_at: now, response: None }),
                ..db
            },
            Ok(
                NextActionView::StartProcessing(
                    TransactionView {
                        owner: k,
                        writes: WritesView { issues: Seq::empty(), tasks: Seq::empty() },
                    },
                ),
            ),
        )
    } else {
        (
            db,
            match saved_response_of(status_of(db.records, k)) {
                Ok(response) => Ok(NextActionView::ReturnSavedResponse(response)),
                Err(e) => Err(e),
            },
        )
    }
}

/// Why a response could not be saved.
#[derive(Clone, Copy, Debug, PartialEq, Eq, Structural)]
pub enum SaveError {
    /// The transaction belongs to another command than the one named.
    TransactionMismatch,
    /// What `Database::commit` refused.
    Commit(CommitError),
}

/// The last step of a command: the transaction is committed together with the
/// response, and the response is handed back as it was saved. On any failure
/// the unfinished command of the transaction is taken back.
pub open spec fn save_response_spec(
    db: DatabaseView,
    user_id: u128,
    key: Seq<char>,
    response: ResponseView,
    transaction: TransactionView,
) -> (DatabaseView, Result<ResponseView, SaveError>) {
    if transaction.owner != (user_id, key) {
        (rolled_back(db, transaction.owner), Err(SaveError::TransactionMismatch))
    } else {
        match committed(db, transaction.owner, response, transaction.writes) {
            Ok(after) => (after, Ok(response)),
            Err(e) => (rolled_back(db, transaction.owner), Err(SaveError::Commit(e))),
        }
    }
}

/// Whether the refused-or-not insertion of the in-flight record means that the
/// command is new: it is when a record was inserted.
pub fn is_new_command(inserted_rows: u64) -> (new: bool)
    ensures
        new == (inserted_rows > 0),
{
    inserted_rows > 0
}

/// Answers a repeated command from what the store holds under its caller and
/// key: the saved response where there is one and it is intact, an error
/// otherwise.
pub fn resolve_duplicate(status: RecordStatus) -> (r: Result<SavedHttpResponse, IdempotencyError>)
    ensures
        match r {
            Ok(response) => saved_response_of(status.view()) == Ok::<ResponseView, IdempotencyError>(
                response@,
            ),
            Err(e) => saved_response_of(status.view()) == Err::<ResponseView, IdempotencyError>(e),
        },
{
    match status {
        RecordStatus::Absent => Err(IdempotencyError::MissingRecord),
        RecordStatus::InFlight => Err(IdempotencyError::ConflictInProgress),
        RecordStatus::Completed(stored) => match SavedHttpResponse::replay(stored) {
            Ok(response) => Ok(response),
            Err(fault) => Err(IdempotencyError::MalformedResponse(fault)),
        },
    }
}

/// The response saved under the caller and key: `None` where the store has no
/// record of the command, the response where the command has finished, an
/// error where it is still in flight or its stored response is damaged.
pub fn get_saved_response(db: &Database, user_id: u128, idempotency_key: &IdempotencyKey) -> (r:
    Result<Option<SavedHttpResponse>, IdempotencyError>)
    requires
        db.wf(),
    ensures
        match r {
            Ok(None) => !db@.records.contains_key((user_id, idempotency_key@)),
            Ok(Some(response)) => db@.records.contains_key((user_id, idempotency_key@))
                && saved_response_of(status_of(db@.records, (user_id, idempotency_key@))) == Ok::<
                ResponseView,
                IdempotencyError,
            >(response@),
            Err(e) => db@.records.contains_key((user_id, idempotency_key@)) && saved_response_of(
                status_of(db@.records, (user_id, idempotency_key@)),
            ) == Err::<ResponseView, IdempotencyError>(e),
        },
{
    match db.record_status(user_id, idempotency_key) {
        RecordStatus::Absent => Ok(None),
        status => match resolve_duplicate(status) {
            Ok(response) => Ok(Some(response)),
            Err(e) => Err(e),
        },
    }
}

/// The view of what `try_processing` returns.
pub open spec fn next_action_view(r: Result<NextAction, IdempotencyError>) -> Result<
    NextActionView,
    IdempotencyError,
> {
    match r {
        Ok(action) => Ok(action@),
        Err(e) => Err(e),
    }
}

/// Begins a command: tries to file its in-flight record, and on refusal reads
/// what is there. See `try_processing_spec`.
pub fn try_processing(user_id: u128, idempotency_key: &IdempotencyKey, db: &mut Database, now: i64) -> (r:
    Result<NextAction, IdempotencyError>)
    requires
        old(db).wf(),
    ensures
        final(db).wf(),
        (final(db)@, next_action_view(r)) == try_processing_spec(
            old(db)@,
            user_id,
            idempotency_key@,
            now,
        ),
{
    let n_inserted_rows = db.insert_in_flight(user_id, idempotency_key, now);
    if is_new_command(n_inserted_rows) {
        Ok(NextAction::StartProcessing(Transaction::begin(user_id, idempotency_key)))
    } else {
        match resolve_duplicate(db.record_status(user_id, idempotency_key)) {
            Ok(response) => Ok(NextAction::ReturnSavedResponse(response)),
            Err(e) => Err(e),
        }
    }
}

/// The view of what `save_response` returns.
pub open spec fn saved_view(r: Result<SavedHttpResponse, SaveError>) -> Result<
    ResponseView,
    SaveError,
> {
    match r {
        Ok(response) => Ok(response@),
        Err(e) => Err(e),
    }
}

/// Finishes a command: commits its transaction together with `response` and
/// returns the response rebuilt from what was saved. See
/// `save_response_spec`.
pub fn save_response(
    user_id: u128,
    idempotency_key: &IdempotencyKey,
    response: SavedHttpResponse,
    transaction: Transaction,
    db: &mut Database,
) -> (r: Result<SavedHttpResponse, SaveError>)
    requires
        old(db).wf(),
    ensures
        final(db).wf(),
        (final(db)@, saved_view(r)) == save_response_spec(
            old(db)@,
            user_id,
            idempotency_key@,
            response@,
            transaction@,
        ),
{
    let same_owner = transaction.user_id() == user_id && crate::text::str_eq(
        transaction.idempotency_key().as_str(),
        idempotency_key.as_str(),
    );
    if !same_owner {
        let owner_id = transaction.user_id();
        let owner_key = transaction.idempotency_key().duplicate();
        db.rollback(owner_id, &owner_key);
        return Err(SaveError::TransactionMismatch);
    }
    let stored = response.to_stored();
    let replayed = stored_copy(&response);
    match db.commit(stored, transaction) {
        Err(e) => Err(SaveError::Commit(e)),
        Ok(()) => Ok(replayed),
    }
}

/// The response as it will be read back from the store.
fn stored_copy(response: &SavedHttpResponse) -> (r: SavedHttpResponse)
    ensures
        r@ == response@,
{
    match SavedHttpResponse::replay(response.to_stored()) {
        Ok(replayed) => replayed,
        Err(_) => response.duplicate(),
    }
}

/// Why a guarded command was not carried out.
#[derive(Debug)]
pub enum GuardError<E> {
    /// The command was submitted before and cannot be answered from the
    /// store.
    Idempotency(IdempotencyError),
    /// The command's own work failed; nothing of it was kept.
    Work(E),
    /// The command's work could not be committed.
    Save(SaveError),
}

/// The transaction that a new command under `owner` starts with.
pub open spec fn fresh_transaction(owner: (u128, Seq<char>)) -> TransactionView {
    TransactionView { owner, writes: WritesView { issues: Seq::empty(), tasks: Seq::empty() } }
}

/// Carries out a command once. `work` is the command's own work: it stages
/// its writes in the transaction that it is given and computes the command's
/// response. For a new command `work` is called, once, and its writes are
/// committed together with its response; where it fails, the command is
/// taken back and counts as never begun. For a command that was processed
/// before `work` is not called: the saved response is returned and the store
/// stays as it is.
pub fn process_once<E, F: FnOnce(Transaction) -> Result<(Transaction, SavedHttpResponse), E>>(
    user_id: u128,
    idempotency_key: &IdempotencyKey,
    db: &mut Database,
    now: i64,
    work: F,
) -> (r: Result<SavedHttpResponse, GuardError<E>>)
    requires
        old(db).wf(),
        forall|transaction: Transaction|
            transaction@ == fresh_transaction((user_id, idempotency_key@)) ==> call_requires(
                work,
                (transaction,),
            ),
    ensures
        final(db).wf(),
        match try_processing_spec(old(db)@, user_id, idempotency_key@, now) {
            (begun, Err(e)) => final(db)@ == begun && r is Err && r->Err_0 is Idempotency
                && r->Err_0->Idempotency_0 == e,
            (begun, Ok(NextActionView::ReturnSavedResponse(response))) => final(db)@ == begun && r is Ok
                && r->Ok_0@ == response,
            (begun, Ok(NextActionView::StartProcessing(started))) => exists|
                transaction: Transaction,
                outcome: Result<(Transaction, SavedHttpResponse), E>,
            |
                {
                    &&& transaction@ == started
                    &&& call_ensures(work, (transaction,), outcome)
                    &&& match outcome {
                        Err(e) => final(db)@ == rolled_back(begun, started.owner) && r is Err
                            && r->Err_0 is Work && r->Err_0->Work_0 == e,
                        Ok((staged, response)) => match save_response_spec(
                            begun,
                            user_id,
                            idempotency_key@,
                            response@,
                            staged@,
                        ) {
                            (after, Ok(saved)) => final(db)@ == after && r is Ok && r->Ok_0@ == saved,
                            (after, Err(e)) => final(db)@ == after && r is Err && r->Err_0 is Save
                                && r->Err_0->Save_0 == e,
                        },
                    }
                },
        },
{
    let transaction = match try_processing(user_id, idempotency_key, db, now) {
        Err(e) => {
            return Err(GuardError::Idempotency(e));
        },
        Ok(NextAction::ReturnSavedResponse(saved_response)) => {
            return Ok(saved_response);
        },
        Ok(NextAction::StartProcessing(transaction)) => transaction,
    };
    let ghost started = transaction;
    let outcome = work(transaction);
    match outcome {
        Err(e) => {
            db.rollback(user_id, idempotency_key);
            proof {
                assert(call_ensures(work, (started,), outcome));
            }
            Err(GuardError::Work(e))
        },
        Ok((staged, response)) => {
            proof {
                assert(call_ensures(work, (started,), outcome));
            }
            match save_response(user_id, idempotency_key, response, staged, db) {
                Ok(saved) => Ok(saved),
                Err(e) => Err(GuardError::Save(e)),
            }
        },
    }
}

} // verus!
