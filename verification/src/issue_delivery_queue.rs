//! The delivery queue: one row for each issue and recipient that is still to
//! be served. A row's presence means that the delivery is pending; there is no
//! status beside it.

use crate::text::str_eq;
use vstd::prelude::*;
use vstd::string::*;

verus! {

/// One delivery that is owed: an issue and the address it goes to.
#[derive(Debug)]
pub struct DeliveryTask {
    pub newsletter_issue_id: u128,
    pub subscriber_email: String,
}

/// What a `DeliveryTask` holds.
pub struct TaskView {
    pub issue_id: u128,
    pub recipient: Seq<char>,
}

impl View for DeliveryTask {
    type V = TaskView;

    open spec fn view(&self) -> TaskView {
        TaskView { issue_id: self.newsletter_issue_id, recipient: self.subscriber_email@ }
    }
}

impl DeliveryTask {
    /// A copy of the task.
    pub fn duplicate(&self) -> (task: DeliveryTask)
        ensures
            task@ == self@,
    {
        DeliveryTask {
            newsletter_issue_id: self.newsletter_issue_id,
            subscriber_email: self.subscriber_email.clone(),
        }
    }
}

/// A row of the queue: the task, and the worker that holds the row's lock
/// while it serves the task.
pub struct RowView {
    pub task: TaskView,
    pub claimed_by: Option<u64>,
}

/// What becomes of a claimed row once the attempt is over.
#[derive(Clone, Copy, Debug, PartialEq, Eq, Structural)]
pub enum Disposition {
    /// The row leaves the queue: the task is done for good.
    Delete,
    /// The row stays, unlocked, behind the rows that are waiting: the task
    /// will be tried again.
    Retain,
}

/// A row as it is first written: unclaimed.
pub open spec fn pending(task: TaskView) -> RowView {
    RowView { task, claimed_by: None }
}

/// Whether the queue holds a row for `task`.
pub open spec fn has_task(q: Seq<RowView>, task: TaskView) -> bool {
    exists|i: int| 0 <= i < q.len() && (#[trigger] q[i]).task == task
}

/// No two rows are for the same issue and recipient.
pub open spec fn distinct_tasks(q: Seq<RowView>) -> bool {
    forall|i: int, j: int|
        0 <= i < q.len() && 0 <= j < q.len() && i != j ==> (#[trigger] q[i]).task != (
        #[trigger] q[j]).task
}

/// The tasks of the rows, in the order of the rows.
pub open spec fn tasks_of(q: Seq<RowView>) -> Seq<TaskView> {
    Seq::new(q.len(), |i: int| q[i].task)
}

/// The queue after a row for `task` was added, or `None` where the queue holds
/// such a row already.
pub open spec fn insert_task(q: Seq<RowView>, task: TaskView) -> Option<Seq<RowView>> {
    if has_task(q, task) {
        None
    } else {
        Some(q.push(pending(task)))
    }
}

/// The queue after rows for `tasks` were added in order, or `None` where one
/// of them would be the second row for its issue and recipient.
pub open spec fn insert_tasks(q: Seq<RowView>, tasks: Seq<TaskView>) -> Option<Seq<RowView>>
    decreases tasks.len(),
{
    if tasks.len() == 0 {
        Some(q)
    } else {
        match insert_tasks(q, tasks.drop_last()) {
            Some(longer) => insert_task(longer, tasks.last()),
            None => None,
        }
    }
}

/// The position of the first unclaimed row at or after `from`, or the length
/// of the queue where there is none.
pub open spec fn first_unclaimed_from(q: Seq<RowView>, from: int) -> int
    decreases q.len() - from,
{
    if from < 0 || from >= q.len() {
        q.len() as int
    } else if q[from].claimed_by is None {
        from
    } else {
        first_unclaimed_from(q, from + 1)
    }
}

/// A claim by `worker`: the first row that no worker holds becomes the
/// worker's, and its task is handed out. Rows that another worker holds are
/// passed over, never waited for. Where every row is held, or there is none,
/// nothing changes.
pub open spec fn claim(q: Seq<RowView>, worker: u64) -> (Seq<RowView>, Option<TaskView>) {
    let at = first_unclaimed_from(q, 0);
    if at < q.len() {
        (q.update(at, RowView { task: q[at].task, claimed_by: Some(worker) }), Some(q[at].task))
    } else {
        (q, None)
    }
}

/// Whether `worker` holds the row for `task`.
pub open spec fn holds(q: Seq<RowView>, worker: u64, task: TaskView) -> bool {
    exists|i: int|
        0 <= i < q.len() && (#[trigger] q[i]).task == task && q[i].claimed_by == Some(worker)
}

/// The position of the row for `task` that `worker` holds.
pub open spec fn held_at(q: Seq<RowView>, worker: u64, task: TaskView) -> int {
    choose|i: int|
        0 <= i < q.len() && (#[trigger] q[i]).task == task && q[i].claimed_by == Some(worker)
}

/// The end of an attempt: the row that `worker` holds for `task` is deleted,
/// or unlocked and moved behind the waiting rows. Where the worker holds no
/// such row, nothing changes.
pub open spec fn settle(q: Seq<RowView>, worker: u64, task: TaskView, how: Disposition) -> Seq<
    RowView,
> {
    if !holds(q, worker, task) {
        q
    } else {
        let at = held_at(q, worker, task);
        match how {
            Disposition::Delete => q.remove(at),
            Disposition::Retain => q.remove(at).push(pending(task)),
        }
    }
}

/// One stored row.
#[derive(Debug)]
pub struct QueueRow {
    pub task: DeliveryTask,
    pub claimed_by: Option<u64>,
}

impl View for QueueRow {
    type V = RowView;

    open spec fn view(&self) -> RowView {
        RowView { task: self.task@, claimed_by: self.claimed_by }
    }
}

/// The views of stored rows, in order.
pub open spec fn rows_view(rows: Seq<QueueRow>) -> Seq<RowView> {
    Seq::new(rows.len(), |i: int| rows[i]@)
}

/// The queue of pending deliveries. No two rows are for the same issue and
/// recipient.
#[derive(Debug)]
pub struct DeliveryQueue {
    rows: Vec<QueueRow>,
}

impl View for DeliveryQueue {
    type V = Seq<RowView>;

    closed spec fn view(&self) -> Seq<RowView> {
        rows_view(self.rows@)
    }
}

impl DeliveryQueue {
    /// The queue's invariant: at most one row for an issue and recipient.
    pub open spec fn wf(&self) -> bool {
        distinct_tasks(self@)
    }

    /// A queue without rows.
    pub fn new() -> (queue: DeliveryQueue)
        ensures
            queue.wf(),
            queue@ == Seq::<RowView>::empty(),
    {
        let queue = DeliveryQueue { rows: Vec::new() };
        assert(queue@ =~= Seq::<RowView>::empty());
        queue
    }

    /// The number of rows, claimed or not.
    pub fn len(&self) -> (n: usize)
        ensures
            n == self@.len(),
    {
        self.rows.len()
    }

    /// Whether there is a row for the issue and recipient.
    pub fn contains(&self, issue_id: u128, recipient: &str) -> (found: bool)
        ensures
            found == has_task(self@, TaskView { issue_id, recipient: recipient@ }),
    {
        let ghost task = TaskView { issue_id, recipient: recipient@ };
        let mut i: usize = 0;
        while i < self.rows.len()
            invariant
                i <= self.rows.len(),
                task == (TaskView { issue_id, recipient: recipient@ }),
                forall|j: int| 0 <= j < i ==> (#[trigger] self@[j]).task != task,
            decreases self.rows.len() - i,
        {
            assert(self@[i as int] == self.rows@[i as int]@);
            if self.rows[i].task.newsletter_issue_id == issue_id && str_eq(
                self.rows[i].task.subscriber_email.as_str(),
                recipient,
            ) {
                return true;
            }
            i += 1;
        }
        false
    }

    /// The task of the row at `index`, and the worker that holds it.
    pub fn row(&self, index: usize) -> (row: Option<(DeliveryTask, Option<u64>)>)
        ensures
            match row {
                Some((task, claimed_by)) => index < self@.len() && self@[index as int] == (RowView {
                    task: task@,
                    claimed_by,
                }),
                None => index >= self@.len(),
            },
    {
        if index < self.rows.len() {
            assert(self@[index as int] == self.rows@[index as int]@);
            Some((self.rows[index].task.duplicate(), self.rows[index].claimed_by))
        } else {
            None
        }
    }

    /// Adds an unclaimed row for the issue and recipient, unless there is one
    /// already. Returns whether the row was added.
    pub fn insert(&mut self, issue_id: u128, recipient: String) -> (added: bool)
        requires
            old(self).wf(),
        ensures
            final(self).wf(),
            match insert_task(old(self)@, TaskView { issue_id, recipient: recipient@ }) {
                Some(q) => added && final(self)@ == q,
                None => !added && final(self)@ == old(self)@,
            },
    {
        if self.contains(issue_id, recipient.as_str()) {
            return false;
        }
        let ghost before = self@;
        let ghost task = TaskView { issue_id, recipient: recipient@ };
        let row = QueueRow {
            task: DeliveryTask { newsletter_issue_id: issue_id, subscriber_email: recipient },
            claimed_by: None,
        };
        self.rows.push(row);
        proof {
            assert(self@ =~= before.push(pending(task)));
            lemma_insert_keeps_distinct(before, task);
        }
        true
    }

    /// Cuts the queue back to its first `len` rows.
    pub(crate) fn truncate(&mut self, len: usize)
        requires
            old(self).wf(),
            len <= old(self)@.len(),
        ensures
            final(self).wf(),
            final(self)@ == old(self)@.take(len as int),
    {
        let ghost before = self@;
        self.rows.truncate(len);
        proof {
            assert(self@ =~= before.take(len as int));
            assert forall|i: int, j: int|
                0 <= i < self@.len() && 0 <= j < self@.len() && i != j implies (
            #[trigger] self@[i]).task != (#[trigger] self@[j]).task by {
                assert(self@[i] == before[i]);
                assert(self@[j] == before[j]);
            }
        }
    }

    /// The position of the first row that no worker holds.
    fn first_unclaimed(&self) -> (at: usize)
        ensures
            at == first_unclaimed_from(self@, 0),
            at <= self@.len(),
    {
        let mut i: usize = 0;
        while i < self.rows.len()
            invariant
                i <= self.rows.len(),
                first_unclaimed_from(self@, 0) == first_unclaimed_from(self@, i as int),
            decreases self.rows.len() - i,
        {
            assert(self@[i as int] == self.rows@[i as int]@);
            if self.rows[i].claimed_by.is_none() {
                return i;
            }
            i += 1;
        }
        i
    }

    /// A claim attempt by `worker`: the first unclaimed row becomes the
    /// worker's and its task is returned; rows held by others are skipped.
    /// `None` means that no unclaimed row was found.
    pub fn claim(&mut self, worker: u64) -> (task: Option<DeliveryTask>)
        requires
            old(self).wf(),
        ensures
            final(self).wf(),
            final(self)@ == claim(old(self)@, worker).0,
            match task {
                Some(t) => claim(old(self)@, worker).1 == Some(t@),
                None => claim(old(self)@, worker).1 is None,
            },
    {
        let at = self.first_unclaimed();
        if at >= self.rows.len() {
            return None;
        }
        let ghost before = self@;
        assert(before[at as int] == self.rows@[at as int]@);
        let task = self.rows[at].task.duplicate();
        let row = QueueRow { task: self.rows[at].task.duplicate(), claimed_by: Some(worker) };
        self.rows.set(at, row);
        proof {
            let after = before.update(
                at as int,
                RowView { task: before[at as int].task, claimed_by: Some(worker) },
            );
            assert(self@ =~= after);
            lemma_claim_keeps_distinct(before, worker);
        }
        Some(task)
    }

    /// The position of the row for `task` that `worker` holds.
    fn held_position(&self, worker: u64, task: &DeliveryTask) -> (at: Option<usize>)
        requires
            self.wf(),
        ensures
            match at {
                Some(i) => holds(self@, worker, task@) && i == held_at(self@, worker, task@) && i
                    < self@.len(),
                None => !holds(self@, worker, task@),
            },
    {
        let mut i: usize = 0;
        while i < self.rows.len()
            invariant
                i <= self.rows.len(),
                self.wf(),
                forall|j: int|
                    0 <= j < i ==> !((#[trigger] self@[j]).task == task@ && self@[j].claimed_by
                        == Some(worker)),
            decreases self.rows.len() - i,
        {
            assert(self@[i as int] == self.rows@[i as int]@);
            if self.rows[i].task.newsletter_issue_id == task.newsletter_issue_id && str_eq(
                self.rows[i].task.subscriber_email.as_str(),
                task.subscriber_email.as_str(),
            ) {
                match self.rows[i].claimed_by {
                    Some(holder) => {
                        if holder == worker {
                            proof {
                                let k = held_at(self@, worker, task@);
                                assert(self@[k].task == self@[i as int].task);
                            }
                            return Some(i);
                        }
                    },
                    None => {},
                }
            }
            i += 1;
        }
        None
    }

    /// Ends the attempt of `worker` on `task`: the row is deleted, or unlocked
    /// and moved behind the waiting rows. Returns whether the worker held such
    /// a row; if not, the queue is unchanged.
    pub fn settle(&mut self, worker: u64, task: &DeliveryTask, how: Disposition) -> (settled: bool)
        requires
            old(self).wf(),
        ensures
            final(self).wf(),
            settled == holds(old(self)@, worker, task@),
            final(self)@ == settle(old(self)@, worker, task@, how),
    {
        let at = match self.held_position(worker, task) {
            None => {
                return false;
            },
            Some(at) => at,
        };
        let ghost before = self@;
        let row = self.rows.remove(at);
        proof {
            assert(self@ =~= before.remove(at as int));
            lemma_settle_keeps_distinct(before, worker, task@, how);
        }
        match how {
            Disposition::Delete => {},
            Disposition::Retain => {
                let ghost shorter = self@;
                self.rows.push(QueueRow { task: row.task, claimed_by: None });
                proof {
                    assert(before[at as int] == row@);
                    assert(self@ =~= shorter.push(pending(task@)));
                }
            },
        }
        true
    }
}

/// A row for a task that the queue lacks keeps the rows distinct.
pub proof fn lemma_insert_keeps_distinct(q: Seq<RowView>, task: TaskView)
    requires
        distinct_tasks(q),
        !has_task(q, task),
    ensures
        distinct_tasks(q.push(pending(task))),
{
    let after = q.push(pending(task));
    assert forall|i: int, j: int|
        0 <= i < after.len() && 0 <= j < after.len() && i != j implies (#[trigger] after[i]).task != (
    #[trigger] after[j]).task by {
        if i < q.len() {
            assert(after[i] == q[i]);
        }
        if j < q.len() {
            assert(after[j] == q[j]);
        }
    }
}

/// A claim changes no row's task: the rows stay distinct, and the tasks of
/// the queue are what they were.
pub proof fn lemma_claim_keeps_distinct(q: Seq<RowView>, worker: u64)
    requires
        distinct_tasks(q),
    ensures
        distinct_tasks(claim(q, worker).0),
        tasks_of(claim(q, worker).0) == tasks_of(q),
        claim(q, worker).0.len() == q.len(),
{
    let after = claim(q, worker).0;
    lemma_first_unclaimed(q, 0);
    assert forall|i: int| 0 <= i < q.len() implies (#[trigger] after[i]).task == q[i].task by {}
    assert(tasks_of(after) =~= tasks_of(q));
}

/// Where the first unclaimed row lies: within the queue or at its end, on an
/// unclaimed row, with every row between `from` and it claimed.
pub proof fn lemma_first_unclaimed(q: Seq<RowView>, from: int)
    requires
        0 <= from,
    ensures
        from <= first_unclaimed_from(q, from) || first_unclaimed_from(q, from) == q.len(),
        first_unclaimed_from(q, from) <= q.len(),
        first_unclaimed_from(q, from) < q.len() ==> q[first_unclaimed_from(
            q,
            from,
        )].claimed_by is None,
        forall|i: int|
            from <= i < first_unclaimed_from(q, from) ==> (#[trigger] q[i]).claimed_by is Some,
    decreases q.len() - from,
{
    if from < q.len() && q[from].claimed_by is Some {
        lemma_first_unclaimed(q, from + 1);
    }
}

/// Settling keeps the rows distinct.
pub proof fn lemma_settle_keeps_distinct(
    q: Seq<RowView>,
    worker: u64,
    task: TaskView,
    how: Disposition,
)
    requires
        distinct_tasks(q),
    ensures
        distinct_tasks(settle(q, worker, task, how)),
{
    if holds(q, worker, task) {
        let at = held_at(q, worker, task);
        let shorter = q.remove(at);
        assert forall|i: int| 0 <= i < shorter.len() implies #[trigger] shorter[i] == q[if i < at {
            i
        } else {
            i + 1
        }] by {}
        assert(distinct_tasks(shorter));
        if how == Disposition::Retain {
            if has_task(shorter, task) {
                let i = choose|i: int| 0 <= i < shorter.len() && (#[trigger] shorter[i]).task == task;
                let i0 = if i < at {
                    i
                } else {
                    i + 1
                };
                assert(q[i0].task == q[at].task);
            }
            lemma_insert_keeps_distinct(shorter, task);
        }
    }
}

} // verus!
