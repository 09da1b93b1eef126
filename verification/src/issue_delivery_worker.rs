//! The delivery worker: one poll cycle claims a task, has the email sent, and
//! deletes the task or leaves it for another try. The worker keeps no state
//! of its own between cycles: a cycle is a function of the store and the
//! transport that it is given.
//!
//! The worker distinguishes two kinds of failure. A transport that refuses or
//! cannot be reached fails for now: the task stays and is tried again. An
//! address that is not an email address fails for good: no later try can serve
//! it, so the task is deleted once the failure is logged.

use crate::database::{Database, DatabaseView};
use crate::domain::subscriber_email::{valid_email, SubscriberEmail};
use crate::email_client::{outcome_of_answer, outcome_of_status};
use crate::issue_delivery_queue::{
    claim, holds, settle, DeliveryTask, Disposition, RowView, TaskView,
};
use crate::newsletter::NewsletterIssue;
use vstd::prelude::*;

verus! {

/// The seconds for which a worker rests when it found the queue empty.
pub const EMPTY_QUEUE_PAUSE_SECONDS: u64 = 10;

/// The seconds for which a worker rests when the store failed it.
pub const STORE_FAILURE_PAUSE_SECONDS: u64 = 1;

/// How an attempt to serve a task ended.
#[derive(Clone, Copy, Debug, PartialEq, Eq, Structural)]
pub enum SendOutcome {
    /// The transport accepted the email.
    Delivered,
    /// The transport refused, timed out or could not be reached.
    RetryableFailure,
    /// The stored address is no email address; the transport was not called.
    PermanentFailure,
}

/// How a poll cycle ended.
#[derive(Clone, Copy, Debug, PartialEq, Eq, Structural)]
pub enum ExecutionOutcome {
    /// A task was claimed and its attempt is over.
    TaskCompleted,
    /// No unclaimed task was found.
    EmptyQueue,
}

/// What becomes of a task after an attempt: it is deleted when the email was
/// delivered or can never be, and kept when the failure may pass.
pub open spec fn disposition_after(outcome: SendOutcome) -> Disposition {
    match outcome {
        SendOutcome::Delivered => Disposition::Delete,
        SendOutcome::RetryableFailure => Disposition::Retain,
        SendOutcome::PermanentFailure => Disposition::Delete,
    }
}

/// Whether the transport is called for a task: it is when the stored address
/// is an email address.
pub open spec fn deliverable(task: TaskView) -> bool {
    valid_email(task.recipient)
}

/// How the attempt on `task` ends with a transport that answers `accepts`.
pub open spec fn outcome_of(task: TaskView, accepts: bool) -> SendOutcome {
    if !deliverable(task) {
        SendOutcome::PermanentFailure
    } else if accepts {
        SendOutcome::Delivered
    } else {
        SendOutcome::RetryableFailure
    }
}

/// One poll cycle of `worker` against a transport that answers `accepts`: the
/// queue afterwards, and the task for which the transport was called, if it
/// was called.
pub open spec fn cycle(q: Seq<RowView>, worker: u64, accepts: bool) -> (
    Seq<RowView>,
    Option<TaskView>,
) {
    let (claimed, task) = claim(q, worker);
    match task {
        None => (q, None),
        Some(t) => (
            settle(claimed, worker, t, disposition_after(outcome_of(t, accepts))),
            if deliverable(t) {
                Some(t)
            } else {
                None
            },
        ),
    }
}

/// What `cycles` poll cycles of `worker` in a row make of the queue, against a
/// transport that always answers `accepts`, and the tasks for which the
/// transport was called, in order.
pub open spec fn run(q: Seq<RowView>, worker: u64, accepts: bool, cycles: nat) -> (
    Seq<RowView>,
    Seq<TaskView>,
)
    decreases cycles,
{
    if cycles == 0 {
        (q, Seq::empty())
    } else {
        let (before, sends) = run(q, worker, accepts, (cycles - 1) as nat);
        let (after, sent) = cycle(before, worker, accepts);
        (
            after,
            match sent {
                Some(t) => sends.push(t),
                None => sends,
            },
        )
    }
}

/// Decides what becomes of a task after an attempt.
pub fn disposition_of(outcome: SendOutcome) -> (how: Disposition)
    ensures
        how == disposition_after(outcome),
{
    match outcome {
        SendOutcome::Delivered => Disposition::Delete,
        SendOutcome::RetryableFailure => Disposition::Retain,
        SendOutcome::PermanentFailure => Disposition::Delete,
    }
}

/// How an attempt ended, from what the transport answered.
pub fn outcome_from_transport(accepted: bool) -> (outcome: SendOutcome)
    ensures
        outcome == (if accepted {
            SendOutcome::Delivered
        } else {
            SendOutcome::RetryableFailure
        }),
{
    if accepted {
        SendOutcome::Delivered
    } else {
        SendOutcome::RetryableFailure
    }
}

/// The seconds for which a worker rests after a cycle: none after a task,
/// `EMPTY_QUEUE_PAUSE_SECONDS` after an empty queue, so that it never spins.
pub fn pause_after(outcome: ExecutionOutcome) -> (seconds: u64)
    ensures
        seconds == (match outcome {
            ExecutionOutcome::TaskCompleted => 0,
            ExecutionOutcome::EmptyQueue => EMPTY_QUEUE_PAUSE_SECONDS,
        }),
{
    match outcome {
        ExecutionOutcome::TaskCompleted => 0,
        ExecutionOutcome::EmptyQueue => EMPTY_QUEUE_PAUSE_SECONDS,
    }
}

/// Where a worker stands in its poll cycle.
#[derive(Clone, Copy, Debug, PartialEq, Eq, Structural)]
pub enum WorkerState {
    /// Between cycles.
    Idle,
    /// Looking for an unclaimed task.
    ClaimAttempt,
    /// No task was found; the worker rests.
    Empty,
    /// A task is claimed and its email is with the transport.
    TaskClaimed,
}

/// What happens to a worker.
#[derive(Clone, Copy, Debug, PartialEq, Eq, Structural)]
pub enum WorkerEvent {
    /// A cycle is due: the worker was started, or its rest is over, or its
    /// last task is settled.
    Wake,
    /// The claim found no unclaimed task.
    NothingClaimed,
    /// The claim gave a task; `deliverable` says whether its address is an
    /// email address.
    Claimed { deliverable: bool },
    /// The attempt to send is over: the status code of the transport's answer,
    /// or `None` where no answer came.
    TransportAnswered { status_code: Option<u16> },
    /// The store failed the worker. Its transaction is lost, and with it the
    /// claim on the task, which another cycle will find again.
    StoreFailed,
}

/// What a worker does next.
#[derive(Clone, Copy, Debug, PartialEq, Eq, Structural)]
pub enum WorkerAction {
    /// Try to claim a task.
    Claim,
    /// Rest for so many seconds, then wake.
    Sleep { seconds: u64 },
    /// Hand the email of the claimed task to the transport.
    Send,
    /// Log how the attempt ended, settle the claimed task in this way and
    /// commit, then wake.
    Settle { outcome: SendOutcome, how: Disposition },
    /// Nothing: the event does not belong to the state.
    Ignore,
}

/// The worker's cycle as a transition: from a state and an event to the next
/// state and what to do. A failure of the store ends the cycle wherever it
/// is: the worker rests for `STORE_FAILURE_PAUSE_SECONDS` and starts over.
/// Any other event that does not belong to the state changes nothing.
pub open spec fn step_spec(state: WorkerState, event: WorkerEvent) -> (WorkerState, WorkerAction) {
    match (state, event) {
        (_, WorkerEvent::StoreFailed) => (
            WorkerState::Idle,
            WorkerAction::Sleep { seconds: STORE_FAILURE_PAUSE_SECONDS },
        ),
        (WorkerState::Idle, WorkerEvent::Wake) => (WorkerState::ClaimAttempt, WorkerAction::Claim),
        (WorkerState::Empty, WorkerEvent::Wake) => (WorkerState::ClaimAttempt, WorkerAction::Claim),
        (WorkerState::ClaimAttempt, WorkerEvent::NothingClaimed) => (
            WorkerState::Empty,
            WorkerAction::Sleep { seconds: EMPTY_QUEUE_PAUSE_SECONDS },
        ),
        (WorkerState::ClaimAttempt, WorkerEvent::Claimed { deliverable }) => if deliverable {
            (WorkerState::TaskClaimed, WorkerAction::Send)
        } else {
            (
                WorkerState::Idle,
                WorkerAction::Settle {
                    outcome: SendOutcome::PermanentFailure,
                    how: disposition_after(SendOutcome::PermanentFailure),
                },
            )
        },
        (WorkerState::TaskClaimed, WorkerEvent::TransportAnswered { status_code }) => {
            let outcome = outcome_of_status(status_code);
            (WorkerState::Idle, WorkerAction::Settle { outcome, how: disposition_after(outcome) })
        },
        _ => (state, WorkerAction::Ignore),
    }
}

/// One transition of the worker. See `step_spec`.
pub fn step(state: WorkerState, event: WorkerEvent) -> (next: (WorkerState, WorkerAction))
    ensures
        next == step_spec(state, event),
{
    match (state, event) {
        (_, WorkerEvent::StoreFailed) => (
            WorkerState::Idle,
            WorkerAction::Sleep { seconds: STORE_FAILURE_PAUSE_SECONDS },
        ),
        (WorkerState::Idle, WorkerEvent::Wake) => (WorkerState::ClaimAttempt, WorkerAction::Claim),
        (WorkerState::Empty, WorkerEvent::Wake) => (WorkerState::ClaimAttempt, WorkerAction::Claim),
        (WorkerState::ClaimAttempt, WorkerEvent::NothingClaimed) => (
            WorkerState::Empty,
            WorkerAction::Sleep { seconds: pause_after(ExecutionOutcome::EmptyQueue) },
        ),
        (WorkerState::ClaimAttempt, WorkerEvent::Claimed { deliverable }) => {
            if deliverable {
                (WorkerState::TaskClaimed, WorkerAction::Send)
            } else {
                let outcome = SendOutcome::PermanentFailure;
                (WorkerState::Idle, WorkerAction::Settle { outcome, how: disposition_of(outcome) })
            }
        },
        (WorkerState::TaskClaimed, WorkerEvent::TransportAnswered { status_code }) => {
            let outcome = outcome_of_answer(status_code);
            (WorkerState::Idle, WorkerAction::Settle { outcome, how: disposition_of(outcome) })
        },
        _ => (state, WorkerAction::Ignore),
    }
}

/// A claimed task with what is needed to serve it: the issue, and the
/// recipient's address if it is an email address.
#[derive(Debug)]
pub struct ClaimedDelivery {
    pub task: DeliveryTask,
    pub issue: NewsletterIssue,
    pub recipient: Option<SubscriberEmail>,
}

/// Reads the stored address of a task: the address where it is an email
/// address, `None` where it is not and the task can never be served.
pub fn recipient_of(task: &DeliveryTask) -> (recipient: Option<SubscriberEmail>)
    ensures
        match recipient {
            Some(email) => deliverable(task@) && email@ == task@.recipient,
            None => !deliverable(task@),
        },
{
    match SubscriberEmail::parse(task.subscriber_email.clone()) {
        Ok(email) => Some(email),
        Err(_) => None,
    }
}

/// The claim attempt of a cycle: claims the first unclaimed task for `worker`
/// and joins it with its issue and its recipient. `None` means that the queue
/// had no unclaimed task.
pub fn claim_delivery(db: &mut Database, worker: u64) -> (claimed: Option<ClaimedDelivery>)
    requires
        old(db).wf(),
    ensures
        final(db).wf(),
        final(db)@ == (DatabaseView { queue: claim(old(db)@.queue, worker).0, ..old(db)@ }),
        match claimed {
            None => claim(old(db)@.queue, worker).1 is None,
            Some(delivery) => {
                &&& claim(old(db)@.queue, worker).1 == Some(delivery.task@)
                &&& delivery.issue@.id == delivery.task@.issue_id
                &&& old(db)@.issues.contains(delivery.issue@)
                &&& match delivery.recipient {
                    Some(email) => deliverable(delivery.task@) && email@ == delivery.task@.recipient,
                    None => !deliverable(delivery.task@),
                }
            },
        },
{
    match db.claim_task(worker) {
        None => None,
        Some(task) => {
            let issue = db.issue(task.newsletter_issue_id);
            let recipient = recipient_of(&task);
            Some(ClaimedDelivery { task, issue, recipient })
        },
    }
}

/// The end of a cycle: settles the task that `worker` holds as the outcome of
/// the attempt demands. Returns whether the worker held the task; if not,
/// nothing changes.
pub fn complete_delivery(db: &mut Database, worker: u64, task: &DeliveryTask, outcome: SendOutcome) -> (settled:
    bool)
    requires
        old(db).wf(),
    ensures
        final(db).wf(),
        settled == holds(old(db)@.queue, worker, task@),
        final(db)@ == (DatabaseView {
            queue: settle(old(db)@.queue, worker, task@, disposition_after(outcome)),
            ..old(db)@
        }),
{
    db.settle_task(worker, task, disposition_of(outcome))
}

/// One whole poll cycle of `worker` against a transport that answers the same
/// to whatever it is given: it takes every email, or it fails every call.
/// Each task for which the transport is called is appended to `sends`. See
/// `cycle`.
pub fn try_execute_task(
    db: &mut Database,
    worker: u64,
    transport_accepts: bool,
    sends: &mut Vec<DeliveryTask>,
) -> (outcome: ExecutionOutcome)
    requires
        old(db).wf(),
    ensures
        final(db).wf(),
        final(db)@ == (DatabaseView {
            queue: cycle(old(db)@.queue, worker, transport_accepts).0,
            ..old(db)@
        }),
        crate::database::tasks_view(final(sends)@) == (match cycle(
            old(db)@.queue,
            worker,
            transport_accepts,
        ).1 {
            Some(t) => crate::database::tasks_view(old(sends)@).push(t),
            None => crate::database::tasks_view(old(sends)@),
        }),
        outcome == (if claim(old(db)@.queue, worker).1 is None {
            ExecutionOutcome::EmptyQueue
        } else {
            ExecutionOutcome::TaskCompleted
        }),
{
    let ghost log = crate::database::tasks_view(sends@);
    let delivery = match claim_delivery(db, worker) {
        None => {
            return ExecutionOutcome::EmptyQueue;
        },
        Some(delivery) => delivery,
    };
    let outcome = match &delivery.recipient {
        Some(_) => {
            sends.push(delivery.task.duplicate());
            assert(crate::database::tasks_view(sends@) =~= log.push(delivery.task@));
            outcome_from_transport(transport_accepts)
        },
        None => SendOutcome::PermanentFailure,
    };
    complete_delivery(db, worker, &delivery.task, outcome);
    ExecutionOutcome::TaskCompleted
}

/// One whole poll cycle of `worker` against a given transport. `transport`
/// is handed the recipient and the issue and returns the status code of the
/// service's answer, or `None` where no answer came. It is called at most
/// once: not at all where the queue has no unclaimed task or the claimed
/// task's address is no email address, and once otherwise. The claimed task
/// is then settled as the answer demands.
pub fn poll_once<F: FnOnce(&SubscriberEmail, &NewsletterIssue) -> Option<u16>>(
    db: &mut Database,
    worker: u64,
    transport: F,
) -> (outcome: ExecutionOutcome)
    requires
        old(db).wf(),
        forall|recipient: &SubscriberEmail, issue: &NewsletterIssue|
            call_requires(transport, (recipient, issue)),
    ensures
        final(db).wf(),
        final(db)@.records == old(db)@.records,
        final(db)@.issues == old(db)@.issues,
        match claim(old(db)@.queue, worker) {
            (_, None) => outcome == ExecutionOutcome::EmptyQueue && final(db)@.queue == old(
                db,
            )@.queue,
            (claimed, Some(task)) => outcome == ExecutionOutcome::TaskCompleted && if !deliverable(
                task,
            ) {
                final(db)@.queue == settle(
                    claimed,
                    worker,
                    task,
                    disposition_after(SendOutcome::PermanentFailure),
                )
            } else {
                exists|recipient: &SubscriberEmail, issue: &NewsletterIssue, answer: Option<u16>|
                    {
                        &&& recipient@ == task.recipient
                        &&& issue@.id == task.issue_id
                        &&& old(db)@.issues.contains(issue@)
                        &&& call_ensures(transport, (recipient, issue), answer)
                        &&& final(db)@.queue == settle(
                            claimed,
                            worker,
                            task,
                            disposition_after(outcome_of_status(answer)),
                        )
                    }
            },
        },
{
    let delivery = match claim_delivery(db, worker) {
        None => {
            return ExecutionOutcome::EmptyQueue;
        },
        Some(delivery) => delivery,
    };
    let outcome = match &delivery.recipient {
        Some(recipient) => {
            let answer = transport(recipient, &delivery.issue);
            proof {
                assert(call_ensures(transport, (recipient, &delivery.issue), answer));
            }
            outcome_of_answer(answer)
        },
        None => SendOutcome::PermanentFailure,
    };
    complete_delivery(db, worker, &delivery.task, outcome);
    ExecutionOutcome::TaskCompleted
}

} // verus!
