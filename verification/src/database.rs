//! The store as the library sees it: the table of processing records, the
//! published issues and the delivery queue, held in memory under the
//! constraints that a relational store enforces, and the transaction through
//! which a command writes to them all at once or not at all.
//!
//! The guarantees of the library are stated over this store. A service that
//! keeps the tables in a database takes its decisions from the same functions
//! and leaves the keeping of the constraints to the database.

use crate::idempotency::key::IdempotencyKey;
use crate::idempotency::persistence::{
    status_of, IdempotencyStore, RecordKey, RecordStatus, RecordView,
};
use crate::idempotency::response::{ResponseView, StoredResponse};
use crate::issue_delivery_queue::{
    claim, distinct_tasks, held_at, holds, insert_tasks, lemma_first_unclaimed,
    lemma_insert_keeps_distinct, pending, settle, DeliveryQueue, DeliveryTask, Disposition, RowView,
    TaskView,
};
use crate::newsletter::{IssueView, Newsletter, NewsletterIssue};
use vstd::prelude::*;
use vstd::string::*;

verus! {

/// A write that the store refuses. Each is fatal to the command that made it.
#[derive(Clone, Copy, Debug, PartialEq, Eq, Structural)]
pub enum PersistenceError {
    /// An issue with this identifier is stored already.
    DuplicateIssue,
    /// A delivery task names an issue that is not stored.
    UnknownIssue,
    /// A delivery task for this issue and recipient is queued already.
    DuplicateTask,
}

/// What the store holds.
pub struct DatabaseView {
    pub records: Map<RecordKey, RecordView>,
    pub issues: Seq<IssueView>,
    pub queue: Seq<RowView>,
}

/// What a transaction has staged: issues to store and tasks to queue.
pub struct WritesView {
    pub issues: Seq<IssueView>,
    pub tasks: Seq<TaskView>,
}

/// Whether an issue with identifier `id` is among `issues`.
pub open spec fn has_issue(issues: Seq<IssueView>, id: u128) -> bool {
    exists|i: int| 0 <= i < issues.len() && (#[trigger] issues[i]).id == id
}

/// No two issues share an identifier.
pub open spec fn distinct_issues(issues: Seq<IssueView>) -> bool {
    forall|i: int, j: int|
        0 <= i < issues.len() && 0 <= j < issues.len() && i != j ==> (#[trigger] issues[i]).id != (
        #[trigger] issues[j]).id
}

/// Every queued task is for a stored issue.
pub open spec fn rows_reference_issues(issues: Seq<IssueView>, q: Seq<RowView>) -> bool {
    forall|i: int| 0 <= i < q.len() ==> has_issue(issues, (#[trigger] q[i]).task.issue_id)
}

/// Every task is for one of `issues`.
pub open spec fn tasks_reference_issues(issues: Seq<IssueView>, tasks: Seq<TaskView>) -> bool {
    forall|i: int| 0 <= i < tasks.len() ==> has_issue(issues, (#[trigger] tasks[i]).issue_id)
}

/// The constraints of the store: issue identifiers are unique, so are the
/// queue's rows, and every row is for a stored issue.
pub open spec fn consistent(db: DatabaseView) -> bool {
    &&& distinct_issues(db.issues)
    &&& distinct_tasks(db.queue)
    &&& rows_reference_issues(db.issues, db.queue)
}

/// The issues after `issue` was stored, or `None` where its identifier is
/// taken.
pub open spec fn insert_issue(issues: Seq<IssueView>, issue: IssueView) -> Option<Seq<IssueView>> {
    if has_issue(issues, issue.id) {
        None
    } else {
        Some(issues.push(issue))
    }
}

/// The issues after `staged` were stored in order, or `None` where one of
/// them has an identifier that is taken.
pub open spec fn insert_issues(issues: Seq<IssueView>, staged: Seq<IssueView>) -> Option<
    Seq<IssueView>,
>
    decreases staged.len(),
{
    if staged.len() == 0 {
        Some(issues)
    } else {
        match insert_issues(issues, staged.drop_last()) {
            Some(longer) => insert_issue(longer, staged.last()),
            None => None,
        }
    }
}

/// The store after the staged writes were applied, all of them, or the
/// constraint that the first offending write breaks. Issues are stored before
/// tasks are queued.
pub open spec fn apply_writes(db: DatabaseView, writes: WritesView) -> Result<
    DatabaseView,
    PersistenceError,
> {
    match insert_issues(db.issues, writes.issues) {
        None => Err(PersistenceError::DuplicateIssue),
        Some(issues) => if !tasks_reference_issues(issues, writes.tasks) {
            Err(PersistenceError::UnknownIssue)
        } else {
            match insert_tasks(db.queue, writes.tasks) {
                None => Err(PersistenceError::DuplicateTask),
                Some(queue) => Ok(DatabaseView { records: db.records, issues, queue }),
            }
        },
    }
}

/// Why a commit is refused.
#[derive(Clone, Copy, Debug, PartialEq, Eq, Structural)]
pub enum CommitError {
    /// The command has no record in flight: it was never begun, or it has
    /// finished already.
    NotInFlight,
    /// A staged write breaks a constraint of the store.
    Persistence(PersistenceError),
}

/// The store after the unfinished command under `k` was taken back: its
/// record, if it has no response, is gone; nothing else changes.
pub open spec fn rolled_back(db: DatabaseView, k: RecordKey) -> DatabaseView {
    if status_of(db.records, k) == Some(None::<ResponseView>) {
        DatabaseView { records: db.records.remove(k), ..db }
    } else {
        db
    }
}

/// The store after the command under `k` was committed with `response` and
/// `writes`: the writes are applied and the response stands in the record, as
/// one step. A command without a record in flight, or with a write that
/// breaks a constraint, commits nothing.
pub open spec fn committed(
    db: DatabaseView,
    k: RecordKey,
    response: ResponseView,
    writes: WritesView,
) -> Result<DatabaseView, CommitError> {
    if status_of(db.records, k) != Some(None::<ResponseView>) {
        Err(CommitError::NotInFlight)
    } else {
        match apply_writes(db, writes) {
            Err(e) => Err(CommitError::Persistence(e)),
            Ok(applied) => Ok(
                DatabaseView {
                    records: db.records.insert(
                        k,
                        RecordView { created_at: db.records[k].created_at, response: Some(response) },
                    ),
                    ..applied
                },
            ),
        }
    }
}

/// The tasks that one issue owes to a list of recipients, one for each, in
/// the order of the list.
pub open spec fn tasks_for(issue_id: u128, recipients: Seq<Seq<char>>) -> Seq<TaskView> {
    Seq::new(recipients.len(), |i: int| TaskView { issue_id, recipient: recipients[i] })
}

/// The views of stored issues, in order.
pub open spec fn issues_view(issues: Seq<NewsletterIssue>) -> Seq<IssueView> {
    Seq::new(issues.len(), |i: int| issues[i]@)
}

/// The views of tasks, in order.
pub open spec fn tasks_view(tasks: Seq<DeliveryTask>) -> Seq<TaskView> {
    Seq::new(tasks.len(), |i: int| tasks[i]@)
}

/// The texts of a list of strings, in order.
pub open spec fn strings_view(strings: Seq<String>) -> Seq<Seq<char>> {
    Seq::new(strings.len(), |i: int| strings[i]@)
}

/// What a transaction holds: the command it belongs to and its staged
/// writes.
pub struct TransactionView {
    pub owner: RecordKey,
    pub writes: WritesView,
}

/// A transaction of one command. What the command writes is staged here and
/// reaches the store only when the transaction is committed together with the
/// command's response; until then the store shows nothing of it.
#[derive(Debug)]
pub struct Transaction {
    user_id: u128,
    idempotency_key: IdempotencyKey,
    issues: Vec<NewsletterIssue>,
    tasks: Vec<DeliveryTask>,
}

impl View for Transaction {
    type V = TransactionView;

    closed spec fn view(&self) -> TransactionView {
        TransactionView {
            owner: (self.user_id, self.idempotency_key@),
            writes: WritesView { issues: issues_view(self.issues@), tasks: tasks_view(self.tasks@) },
        }
    }
}

impl Transaction {
    /// A transaction of the command under the caller and key, with nothing
    /// staged.
    pub fn begin(user_id: u128, idempotency_key: &IdempotencyKey) -> (tx: Transaction)
        ensures
            tx@ == (TransactionView {
                owner: (user_id, idempotency_key@),
                writes: WritesView { issues: Seq::empty(), tasks: Seq::empty() },
            }),
    {
        let tx = Transaction {
            user_id,
            idempotency_key: idempotency_key.duplicate(),
            issues: Vec::new(),
            tasks: Vec::new(),
        };
        assert(tx@.writes.issues =~= Seq::<IssueView>::empty());
        assert(tx@.writes.tasks =~= Seq::<TaskView>::empty());
        tx
    }

    /// The caller of the command.
    pub fn user_id(&self) -> (id: u128)
        ensures
            id == self@.owner.0,
    {
        self.user_id
    }

    /// The key of the command.
    pub fn idempotency_key(&self) -> (key: &IdempotencyKey)
        ensures
            key@ == self@.owner.1,
    {
        &self.idempotency_key
    }

    /// Stages the issue that publishing `newsletter` under `issue_id` at
    /// `published_at` creates, and returns the identifier.
    pub fn insert_newsletter_issue(
        &mut self,
        newsletter: &Newsletter,
        issue_id: u128,
        published_at: i64,
    ) -> (id: u128)
        ensures
            id == issue_id,
            final(self)@.owner == old(self)@.owner,
            final(self)@.writes.tasks == old(self)@.writes.tasks,
            final(self)@.writes.issues == old(self)@.writes.issues.push(
                IssueView { id: issue_id, content: newsletter@, published_at },
            ),
    {
        let ghost before = self@;
        let issue = NewsletterIssue::new(issue_id, newsletter, published_at);
        self.issues.push(issue);
        proof {
            assert(self@.writes.issues =~= before.writes.issues.push(
                IssueView { id: issue_id, content: newsletter@, published_at },
            ));
        }
        issue_id
    }

    /// Stages one delivery task for each of `recipients`, in order, all for the
    /// issue `issue_id`.
    pub fn enqueue_delivery_task(&mut self, issue_id: u128, recipients: &Vec<String>)
        ensures
            final(self)@.owner == old(self)@.owner,
            final(self)@.writes.issues == old(self)@.writes.issues,
            final(self)@.writes.tasks == old(self)@.writes.tasks + tasks_for(
                issue_id,
                strings_view(recipients@),
            ),
    {
        let ghost before = self@;
        let ghost wanted = tasks_for(issue_id, strings_view(recipients@));
        let mut i: usize = 0;
        while i < recipients.len()
            invariant
                i <= recipients.len(),
                wanted == tasks_for(issue_id, strings_view(recipients@)),
                self@.owner == before.owner,
                self@.writes.issues == before.writes.issues,
                self@.writes.tasks == before.writes.tasks + wanted.take(i as int),
            decreases recipients.len() - i,
        {
            let ghost staged = self@.writes.tasks;
            self.tasks.push(
                DeliveryTask {
                    newsletter_issue_id: issue_id,
                    subscriber_email: recipients[i].clone(),
                },
            );
            proof {
                assert(wanted[i as int] == TaskView { issue_id, recipient: recipients@[i as int]@ });
                assert(self@.writes.tasks =~= staged.push(wanted[i as int]));
                assert(wanted.take(i + 1) =~= wanted.take(i as int).push(wanted[i as int]));
                assert(self@.writes.tasks =~= before.writes.tasks + wanted.take(i + 1));
            }
            i += 1;
        }
        assert(wanted.take(recipients.len() as int) =~= wanted);
    }
}

/// The store: three tables that change together. Every operation on it is
/// one step; what happens between two steps of one command is what other
/// commands and workers may see.
#[derive(Debug)]
pub struct Database {
    idempotency: IdempotencyStore,
    issues: Vec<NewsletterIssue>,
    queue: DeliveryQueue,
}

impl View for Database {
    type V = DatabaseView;

    closed spec fn view(&self) -> DatabaseView {
        DatabaseView {
            records: self.idempotency@,
            issues: issues_view(self.issues@),
            queue: self.queue@,
        }
    }
}

impl Database {
    /// The store's invariant: its tables are well formed and its constraints
    /// hold.
    pub closed spec fn wf(&self) -> bool {
        &&& self.idempotency.wf()
        &&& self.queue.wf()
        &&& consistent(self@)
    }

    /// In a well-formed store the constraints hold.
    pub proof fn lemma_wf_consistent(&self)
        requires
            self.wf(),
        ensures
            consistent(self@),
    {
    }

    /// An empty store.
    pub fn new() -> (db: Database)
        ensures
            db.wf(),
            db@ == (DatabaseView {
                records: Map::empty(),
                issues: Seq::empty(),
                queue: Seq::empty(),
            }),
    {
        let db = Database {
            idempotency: IdempotencyStore::new(),
            issues: Vec::new(),
            queue: DeliveryQueue::new(),
        };
        assert(db@.issues =~= Seq::<IssueView>::empty());
        db
    }

    /// The table of processing records.
    pub fn idempotency(&self) -> (store: &IdempotencyStore)
        requires
            self.wf(),
        ensures
            store.wf(),
            store@ == self@.records,
    {
        &self.idempotency
    }

    /// The delivery queue.
    pub fn queue(&self) -> (queue: &DeliveryQueue)
        requires
            self.wf(),
        ensures
            queue.wf(),
            queue@ == self@.queue,
    {
        &self.queue
    }

    /// Files a record without a response under the caller and key, unless one
    /// is there already. Returns the number of records inserted, 1 or 0; with
    /// 0 the store is unchanged.
    pub fn insert_in_flight(&mut self, user_id: u128, key: &IdempotencyKey, created_at: i64) -> (inserted:
        u64)
        requires
            old(self).wf(),
        ensures
            final(self).wf(),
            final(self)@.issues == old(self)@.issues,
            final(self)@.queue == old(self)@.queue,
            old(self)@.records.contains_key((user_id, key@)) ==> inserted == 0 && final(self)@
                == old(self)@,
            !old(self)@.records.contains_key((user_id, key@)) ==> inserted == 1 && final(
                self
            )@.records == old(self)@.records.insert(
                (user_id, key@),
                RecordView { created_at, response: None },
            ),
    {
        self.idempotency.insert_in_flight(user_id, key, created_at)
    }

    /// What is filed under the caller and key.
    pub fn record_status(&self, user_id: u128, key: &IdempotencyKey) -> (status: RecordStatus)
        requires
            self.wf(),
        ensures
            status.view() == status_of(self@.records, (user_id, key@)),
    {
        self.idempotency.status(user_id, key)
    }

    /// Takes back the record of a command that did not finish: a record
    /// without a response under the caller and key is removed, so that the
    /// command counts as never begun. A finished record is left alone.
    pub fn rollback(&mut self, user_id: u128, key: &IdempotencyKey)
        requires
            old(self).wf(),
        ensures
            final(self).wf(),
            final(self)@ == rolled_back(old(self)@, (user_id, key@)),
    {
        match self.idempotency.status(user_id, key) {
            RecordStatus::InFlight => {
                self.idempotency.remove(user_id, key);
            },
            _ => {},
        }
    }

    /// Commits the command of a transaction: its staged writes are applied and
    /// its response is written into its record, both or neither. Where the
    /// record is not in flight nothing is done; where a write breaks a
    /// constraint the record is taken back and nothing else changes.
    pub fn commit(&mut self, response: StoredResponse, transaction: Transaction) -> (r: Result<
        (),
        CommitError,
    >)
        requires
            old(self).wf(),
        ensures
            final(self).wf(),
            match committed(old(self)@, transaction@.owner, response@, transaction@.writes) {
                Ok(db) => r is Ok && final(self)@ == db,
                Err(e) => r == Err::<(), CommitError>(e) && final(self)@ == rolled_back(
                    old(self)@,
                    transaction@.owner,
                ),
            },
    {
        let user_id = transaction.user_id;
        let key = &transaction.idempotency_key;
        match self.idempotency.status(user_id, key) {
            RecordStatus::InFlight => {},
            _ => {
                return Err(CommitError::NotInFlight);
            },
        }
        match self.apply(&transaction.issues, &transaction.tasks) {
            Err(e) => {
                self.idempotency.remove(user_id, key);
                Err(CommitError::Persistence(e))
            },
            Ok(()) => {
                let updated = self.idempotency.set_response(user_id, key, response);
                assert(updated == 1);
                Ok(())
            },
        }
    }

    /// A claim attempt by `worker` on the delivery queue: the first row that
    /// no worker holds becomes the worker's, and its task is returned.
    pub fn claim_task(&mut self, worker: u64) -> (task: Option<DeliveryTask>)
        requires
            old(self).wf(),
        ensures
            final(self).wf(),
            final(self)@ == (DatabaseView { queue: claim(old(self)@.queue, worker).0, ..old(self)@ }),
            match task {
                Some(t) => claim(old(self)@.queue, worker).1 == Some(t@) && has_issue(
                    old(self)@.issues,
                    t@.issue_id,
                ),
                None => claim(old(self)@.queue, worker).1 is None,
            },
    {
        let ghost before = self@;
        let task = self.queue.claim(worker);
        proof {
            lemma_claim_keeps_references(before.issues, before.queue, worker);
            lemma_first_unclaimed(before.queue, 0);
        }
        task
    }

    /// The stored issue with identifier `id`, which is known to be stored.
    pub(crate) fn issue(&self, id: u128) -> (issue: NewsletterIssue)
        requires
            has_issue(self@.issues, id),
        ensures
            issue@.id == id,
            self@.issues.contains(issue@),
    {
        let mut i: usize = 0;
        loop
            invariant
                i < self.issues.len(),
                has_issue(self@.issues, id),
                forall|j: int| 0 <= j < i ==> (#[trigger] self@.issues[j]).id != id,
            decreases self.issues.len() - i,
        {
            assert(self@.issues[i as int] == self.issues@[i as int]@);
            if self.issues[i].newsletter_issue_id == id {
                return self.issues[i].duplicate();
            }
            i += 1;
        }
    }

    /// Ends the attempt of `worker` on `task`: the row is deleted, or unlocked
    /// and moved behind the waiting rows. Returns whether the worker held such
    /// a row; if not, nothing changes.
    pub fn settle_task(&mut self, worker: u64, task: &DeliveryTask, how: Disposition) -> (settled:
        bool)
        requires
            old(self).wf(),
        ensures
            final(self).wf(),
            settled == holds(old(self)@.queue, worker, task@),
            final(self)@ == (DatabaseView {
                queue: settle(old(self)@.queue, worker, task@, how),
                ..old(self)@
            }),
    {
        let ghost before = self@;
        let settled = self.queue.settle(worker, task, how);
        proof {
            lemma_settle_keeps_references(before.issues, before.queue, worker, task@, how);
        }
        settled
    }

    /// The number of stored issues.
    pub fn issue_count(&self) -> (n: usize)
        ensures
            n == self@.issues.len(),
    {
        self.issues.len()
    }

    /// The position of the issue with identifier `id`.
    fn issue_position(&self, id: u128) -> (at: Option<usize>)
        ensures
            match at {
                Some(i) => i < self@.issues.len() && self@.issues[i as int].id == id,
                None => !has_issue(self@.issues, id),
            },
    {
        let mut i: usize = 0;
        while i < self.issues.len()
            invariant
                i <= self.issues.len(),
                forall|j: int| 0 <= j < i ==> (#[trigger] self@.issues[j]).id != id,
            decreases self.issues.len() - i,
        {
            assert(self@.issues[i as int] == self.issues@[i as int]@);
            if self.issues[i].newsletter_issue_id == id {
                return Some(i);
            }
            i += 1;
        }
        None
    }

    /// The stored issue with identifier `id`, if there is one.
    pub fn get_issue(&self, id: u128) -> (issue: Option<NewsletterIssue>)
        ensures
            match issue {
                Some(found) => has_issue(self@.issues, id) && found@.id == id && self@.issues.contains(
                    found@,
                ),
                None => !has_issue(self@.issues, id),
            },
    {
        match self.issue_position(id) {
            None => None,
            Some(i) => {
                assert(self@.issues[i as int] == self.issues@[i as int]@);
                Some(self.issues[i].duplicate())
            },
        }
    }

    /// Stores the staged issues in order and stops at the first whose
    /// identifier is taken. Returns whether all were stored.
    fn store_issues(&mut self, staged: &Vec<NewsletterIssue>) -> (stored: bool)
        requires
            old(self).wf(),
        ensures
            final(self)@.records == old(self)@.records,
            final(self)@.queue == old(self)@.queue,
            final(self).idempotency.wf(),
            final(self).queue.wf(),
            final(self)@.issues.len() >= old(self)@.issues.len(),
            final(self)@.issues.take(old(self)@.issues.len() as int) == old(self)@.issues,
            stored == insert_issues(old(self)@.issues, issues_view(staged@)) is Some,
            stored ==> insert_issues(old(self)@.issues, issues_view(staged@)) == Some(
                final(self)@.issues,
            ),
    {
        let ghost start = self@.issues;
        let ghost wanted = issues_view(staged@);
        let mut i: usize = 0;
        assert(wanted.take(0) =~= Seq::<IssueView>::empty());
        assert(self@.issues.take(start.len() as int) =~= start);
        while i < staged.len()
            invariant
                i <= staged.len(),
                wanted == issues_view(staged@),
                self@.records == old(self)@.records,
                self@.queue == old(self)@.queue,
                self.idempotency.wf(),
                self.queue.wf(),
                start == old(self)@.issues,
                self@.issues.len() >= start.len(),
                self@.issues.take(start.len() as int) == start,
                insert_issues(start, wanted.take(i as int)) == Some(self@.issues),
            decreases staged.len() - i,
        {
            let ghost current = self@.issues;
            proof {
                assert(wanted.take(i + 1).drop_last() =~= wanted.take(i as int));
                assert(wanted.take(i + 1).last() == wanted[i as int]);
                assert(wanted[i as int] == staged@[i as int]@);
            }
            match self.issue_position(staged[i].newsletter_issue_id) {
                Some(_) => {
                    proof {
                        assert(has_issue(current, wanted[i as int].id));
                        assert(insert_issues(start, wanted.take(i + 1)) is None);
                        lemma_insert_issues_fails_on(start, wanted, i + 1);
                    }
                    return false;
                },
                None => {},
            }
            self.issues.push(staged[i].duplicate());
            proof {
                assert(self@.issues =~= current.push(wanted[i as int]));
                assert(self@.issues.take(start.len() as int) =~= current.take(start.len() as int));
            }
            i += 1;
        }
        assert(wanted.take(staged.len() as int) =~= wanted);
        true
    }

    /// Whether every staged task is for a stored issue.
    fn tasks_known(&self, staged: &Vec<DeliveryTask>) -> (known: bool)
        ensures
            known == tasks_reference_issues(self@.issues, tasks_view(staged@)),
    {
        let ghost wanted = tasks_view(staged@);
        let mut i: usize = 0;
        while i < staged.len()
            invariant
                i <= staged.len(),
                wanted == tasks_view(staged@),
                forall|j: int| 0 <= j < i ==> has_issue(self@.issues, (#[trigger] wanted[j]).issue_id),
            decreases staged.len() - i,
        {
            assert(wanted[i as int] == staged@[i as int]@);
            if self.issue_position(staged[i].newsletter_issue_id).is_none() {
                return false;
            }
            i += 1;
        }
        true
    }

    /// Queues the staged tasks in order and stops at the first that is queued
    /// already.
    fn queue_tasks(&mut self, staged: &Vec<DeliveryTask>) -> (queued: bool)
        requires
            old(self).idempotency.wf(),
            old(self).queue.wf(),
        ensures
            final(self)@.records == old(self)@.records,
            final(self)@.issues == old(self)@.issues,
            final(self).idempotency.wf(),
            final(self).queue.wf(),
            final(self)@.queue.len() >= old(self)@.queue.len(),
            final(self)@.queue.take(old(self)@.queue.len() as int) == old(self)@.queue,
            queued == insert_tasks(old(self)@.queue, tasks_view(staged@)) is Some,
            queued ==> insert_tasks(old(self)@.queue, tasks_view(staged@)) == Some(
                final(self)@.queue,
            ),
    {
        let ghost start = self@.queue;
        let ghost wanted = tasks_view(staged@);
        let mut i: usize = 0;
        assert(wanted.take(0) =~= Seq::<TaskView>::empty());
        assert(self@.queue.take(start.len() as int) =~= start);
        while i < staged.len()
            invariant
                i <= staged.len(),
                wanted == tasks_view(staged@),
                self@.records == old(self)@.records,
                self@.issues == old(self)@.issues,
                self.idempotency.wf(),
                self.queue.wf(),
                start == old(self)@.queue,
                self@.queue.len() >= start.len(),
                self@.queue.take(start.len() as int) == start,
                insert_tasks(start, wanted.take(i as int)) == Some(self@.queue),
            decreases staged.len() - i,
        {
            let ghost current = self@.queue;
            proof {
                assert(wanted.take(i + 1).drop_last() =~= wanted.take(i as int));
                assert(wanted.take(i + 1).last() == wanted[i as int]);
                assert(wanted[i as int] == staged@[i as int]@);
            }
            let added = self.queue.insert(
                staged[i].newsletter_issue_id,
                staged[i].subscriber_email.clone(),
            );
            if !added {
                proof {
                    assert(insert_tasks(start, wanted.take(i + 1)) is None);
                    lemma_insert_tasks_fails_on(start, wanted, i + 1);
                }
                return false;
            }
            proof {
                assert(self@.queue.take(start.len() as int) =~= current.take(start.len() as int));
            }
            i += 1;
        }
        assert(wanted.take(staged.len() as int) =~= wanted);
        true
    }

    /// Applies the staged writes of a transaction, all of them or none: where
    /// a write breaks a constraint, the store is left as it was and the
    /// constraint is named.
    pub(crate) fn apply(&mut self, issues: &Vec<NewsletterIssue>, tasks: &Vec<DeliveryTask>) -> (r:
        Result<(), PersistenceError>)
        requires
            old(self).wf(),
        ensures
            final(self).wf(),
            match apply_writes(
                old(self)@,
                WritesView { issues: issues_view(issues@), tasks: tasks_view(tasks@) },
            ) {
                Ok(db) => r is Ok && final(self)@ == db,
                Err(e) => r == Err::<(), PersistenceError>(e) && final(self)@ == old(self)@,
            },
    {
        let ghost before = self@;
        let issues_before = self.issues.len();
        let rows_before = self.queue.len();
        if !self.store_issues(issues) {
            self.issues.truncate(issues_before);
            assert(self@.issues =~= before.issues);
            assert(self@ == before);
            return Err(PersistenceError::DuplicateIssue);
        }
        let ghost stored = self@.issues;
        if !self.tasks_known(tasks) {
            self.issues.truncate(issues_before);
            assert(self@.issues =~= before.issues);
            assert(self@ == before);
            return Err(PersistenceError::UnknownIssue);
        }
        if !self.queue_tasks(tasks) {
            self.queue.truncate(rows_before);
            self.issues.truncate(issues_before);
            assert(self@.issues =~= before.issues);
            assert(self@ == before);
            return Err(PersistenceError::DuplicateTask);
        }
        proof {
            lemma_apply_keeps_consistent(
                before,
                WritesView { issues: issues_view(issues@), tasks: tasks_view(tasks@) },
            );
        }
        Ok(())
    }
}

/// Once a prefix of the staged issues cannot be stored, neither can the whole
/// list.
pub proof fn lemma_insert_issues_fails_on(issues: Seq<IssueView>, staged: Seq<IssueView>, n: int)
    requires
        0 <= n <= staged.len(),
        insert_issues(issues, staged.take(n)) is None,
    ensures
        insert_issues(issues, staged) is None,
    decreases staged.len() - n,
{
    if n == staged.len() {
        assert(staged.take(n) =~= staged);
    } else {
        assert(staged.take(n + 1).drop_last() =~= staged.take(n));
        lemma_insert_issues_fails_on(issues, staged, n + 1);
    }
}

/// Once a prefix of the staged tasks cannot be queued, neither can the whole
/// list.
pub proof fn lemma_insert_tasks_fails_on(q: Seq<RowView>, staged: Seq<TaskView>, n: int)
    requires
        0 <= n <= staged.len(),
        insert_tasks(q, staged.take(n)) is None,
    ensures
        insert_tasks(q, staged) is None,
    decreases staged.len() - n,
{
    if n == staged.len() {
        assert(staged.take(n) =~= staged);
    } else {
        assert(staged.take(n + 1).drop_last() =~= staged.take(n));
        lemma_insert_tasks_fails_on(q, staged, n + 1);
    }
}

/// Issues that were stored stand behind the ones that were there, in their
/// own order, and no identifier occurs twice.
pub proof fn lemma_insert_issues(issues: Seq<IssueView>, staged: Seq<IssueView>)
    requires
        distinct_issues(issues),
        insert_issues(issues, staged) is Some,
    ensures
        insert_issues(issues, staged) == Some(issues + staged),
        distinct_issues(issues + staged),
        forall|id: u128| has_issue(issues, id) ==> has_issue(issues + staged, id),
    decreases staged.len(),
{
    if staged.len() == 0 {
        assert(issues + staged =~= issues);
    } else {
        let front = staged.drop_last();
        lemma_insert_issues(issues, front);
        let longer = issues + front;
        assert(longer.push(staged.last()) =~= issues + staged);
        let after = issues + staged;
        assert forall|i: int, j: int|
            0 <= i < after.len() && 0 <= j < after.len() && i != j implies (#[trigger] after[i]).id
            != (#[trigger] after[j]).id by {
            if i < longer.len() {
                assert(after[i] == longer[i]);
            }
            if j < longer.len() {
                assert(after[j] == longer[j]);
            }
        }
        assert forall|id: u128| has_issue(issues, id) implies has_issue(after, id) by {
            let i = choose|i: int| 0 <= i < issues.len() && (#[trigger] issues[i]).id == id;
            assert(after[i].id == id);
        }
    }
}

/// Tasks that were queued stand behind the rows that were there, unclaimed
/// and in their own order, and no task occurs twice.
pub proof fn lemma_insert_tasks(q: Seq<RowView>, staged: Seq<TaskView>)
    requires
        distinct_tasks(q),
        insert_tasks(q, staged) is Some,
    ensures
        insert_tasks(q, staged) == Some(q + Seq::new(staged.len(), |i: int| pending(staged[i]))),
        distinct_tasks(q + Seq::new(staged.len(), |i: int| pending(staged[i]))),
    decreases staged.len(),
{
    let added = Seq::new(staged.len(), |i: int| pending(staged[i]));
    if staged.len() == 0 {
        assert(q + added =~= q);
    } else {
        let front = staged.drop_last();
        lemma_insert_tasks(q, front);
        let longer = q + Seq::new(front.len(), |i: int| pending(front[i]));
        assert(longer.push(pending(staged.last())) =~= q + added);
        lemma_insert_keeps_distinct(longer, staged.last());
    }
}

/// Applying staged writes to a consistent store leaves it consistent.
pub proof fn lemma_apply_keeps_consistent(db: DatabaseView, writes: WritesView)
    requires
        consistent(db),
        apply_writes(db, writes) is Ok,
    ensures
        consistent(apply_writes(db, writes)->Ok_0),
        apply_writes(db, writes)->Ok_0 == (DatabaseView {
            records: db.records,
            issues: db.issues + writes.issues,
            queue: db.queue + Seq::new(writes.tasks.len(), |i: int| pending(writes.tasks[i])),
        }),
{
    lemma_insert_issues(db.issues, writes.issues);
    lemma_insert_tasks(db.queue, writes.tasks);
    let after = apply_writes(db, writes)->Ok_0;
    assert forall|i: int| 0 <= i < after.queue.len() implies has_issue(
        after.issues,
        (#[trigger] after.queue[i]).task.issue_id,
    ) by {
        if i < db.queue.len() {
            assert(after.queue[i] == db.queue[i]);
            assert(has_issue(db.issues, db.queue[i].task.issue_id));
        } else {
            assert(after.queue[i] == pending(writes.tasks[i - db.queue.len()]));
        }
    }
}

/// A claim leaves every row with its task, so every row is still for a
/// stored issue.
pub proof fn lemma_claim_keeps_references(issues: Seq<IssueView>, q: Seq<RowView>, worker: u64)
    requires
        rows_reference_issues(issues, q),
    ensures
        rows_reference_issues(issues, claim(q, worker).0),
{
    let after = claim(q, worker).0;
    lemma_first_unclaimed(q, 0);
    assert forall|i: int| 0 <= i < after.len() implies has_issue(
        issues,
        (#[trigger] after[i]).task.issue_id,
    ) by {
        assert(after[i].task == q[i].task);
    }
}

/// Settling adds no task, so every row is still for a stored issue.
pub proof fn lemma_settle_keeps_references(
    issues: Seq<IssueView>,
    q: Seq<RowView>,
    worker: u64,
    task: TaskView,
    how: Disposition,
)
    requires
        rows_reference_issues(issues, q),
    ensures
        rows_reference_issues(issues, settle(q, worker, task, how)),
{
    if holds(q, worker, task) {
        let at = held_at(q, worker, task);
        let shorter = q.remove(at);
        let after = settle(q, worker, task, how);
        assert forall|i: int| 0 <= i < after.len() implies has_issue(
            issues,
            (#[trigger] after[i]).task.issue_id,
        ) by {
            if i < shorter.len() {
                let i0 = if i < at {
                    i
                } else {
                    i + 1
                };
                assert(after[i] == q[i0]);
            } else {
                assert(after[i].task == q[at].task);
            }
        }
    }
}

} // verus!
