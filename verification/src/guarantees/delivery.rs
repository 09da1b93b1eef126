//! Every queued task is served without loss or duplication: a worker with a
//! willing transport empties the queue with one send for each task, a failing
//! transport loses no task, and workers side by side never serve the same
//! task.

use crate::issue_delivery_queue::{
    claim, distinct_tasks, first_unclaimed_from, has_task, held_at, holds,
    lemma_claim_keeps_distinct, lemma_first_unclaimed, lemma_settle_keeps_distinct, pending, settle,
    tasks_of, Disposition, RowView, TaskView,
};
use crate::issue_delivery_worker::{cycle, deliverable, disposition_after, outcome_of, run};
use crate::database::{consistent, has_issue, tasks_for, DatabaseView};
use crate::domain::subscriber_email::valid_email;
use crate::guarantees::exactly_once::{
    distinct_recipients, lemma_new_command_takes_effect, rows_of,
};
use crate::idempotency::key::valid_key;
use crate::newsletter::newsletter_fault;
use crate::publish::{publish_spec, PublishCommand};
use vstd::prelude::*;

verus! {

/// No worker holds a row.
pub open spec fn all_unclaimed(q: Seq<RowView>) -> bool {
    forall|i: int| 0 <= i < q.len() ==> (#[trigger] q[i]).claimed_by is None
}

/// Every row's address is an email address.
pub open spec fn all_deliverable(q: Seq<RowView>) -> bool {
    forall|i: int| 0 <= i < q.len() ==> deliverable((#[trigger] q[i]).task)
}

/// `s` repeated `n` times.
pub open spec fn repeated<A>(s: Seq<A>, n: nat) -> Seq<A>
    decreases n,
{
    if n == 0 {
        Seq::empty()
    } else {
        repeated(s, (n - 1) as nat) + s
    }
}

/// A part of a queue that is cut off at the front is as well formed as the
/// queue.
proof fn lemma_skip_keeps(q: Seq<RowView>, n: int)
    requires
        0 <= n <= q.len(),
        distinct_tasks(q),
        all_unclaimed(q),
    ensures
        distinct_tasks(q.skip(n)),
        all_unclaimed(q.skip(n)),
        all_deliverable(q) ==> all_deliverable(q.skip(n)),
{
    let rest = q.skip(n);
    assert forall|i: int| 0 <= i < rest.len() implies #[trigger] rest[i] == q[i + n] by {}
    assert forall|i: int, j: int|
        0 <= i < rest.len() && 0 <= j < rest.len() && i != j implies (#[trigger] rest[i]).task != (
    #[trigger] rest[j]).task by {
        assert(rest[i] == q[i + n]);
        assert(rest[j] == q[j + n]);
    }
    if all_deliverable(q) {
        assert forall|i: int| 0 <= i < rest.len() implies deliverable((#[trigger] rest[i]).task) by {
            assert(rest[i] == q[i + n]);
        }
    }
}

/// One cycle against a queue in which no row is held: the worker takes the
/// first row. The row is deleted when its email is delivered or can never
/// be, and is moved behind the others when the transport fails. The transport
/// is called exactly when the row's address is an email address.
pub proof fn lemma_cycle_takes_first(q: Seq<RowView>, worker: u64, accepts: bool)
    requires
        distinct_tasks(q),
        all_unclaimed(q),
        q.len() > 0,
    ensures
        cycle(q, worker, accepts).0 == (if deliverable(q[0].task) && !accepts {
            q.skip(1).push(q[0])
        } else {
            q.skip(1)
        }),
        cycle(q, worker, accepts).1 == (if deliverable(q[0].task) {
            Some(q[0].task)
        } else {
            None
        }),
{
    let task = q[0].task;
    assert(first_unclaimed_from(q, 0) == 0);
    let claimed = claim(q, worker).0;
    assert(claimed[0].task == task && claimed[0].claimed_by == Some(worker));
    assert(holds(claimed, worker, task));
    let at = held_at(claimed, worker, task);
    if at != 0 {
        assert(claimed[at].task == q[at].task);
        assert(q[at].task == q[0].task);
    }
    assert(claimed.remove(0) =~= q.skip(1));
    assert(q[0] == pending(task));
}

/// A cycle against an empty queue finds nothing and changes nothing.
pub proof fn lemma_cycle_on_empty(q: Seq<RowView>, worker: u64, accepts: bool)
    requires
        q.len() == 0,
    ensures
        cycle(q, worker, accepts) == (q, None::<TaskView>),
{
}

/// Running `first + then` cycles is running `first` cycles and then `then`
/// more.
pub proof fn lemma_run_adds_up(q: Seq<RowView>, worker: u64, accepts: bool, first: nat, then: nat)
    ensures
        run(q, worker, accepts, first + then) == (
            run(run(q, worker, accepts, first).0, worker, accepts, then).0,
            run(q, worker, accepts, first).1 + run(
                run(q, worker, accepts, first).0,
                worker,
                accepts,
                then,
            ).1,
        ),
    decreases then,
{
    let (middle, early) = run(q, worker, accepts, first);
    if then == 0 {
        assert(early + Seq::<TaskView>::empty() =~= early);
    } else {
        lemma_run_adds_up(q, worker, accepts, first, (then - 1) as nat);
        let (before, late) = run(middle, worker, accepts, (then - 1) as nat);
        assert(((first + then) - 1) as nat == first + (then - 1) as nat);
        let sent = cycle(before, worker, accepts).1;
        match sent {
            Some(t) => {
                assert((early + late).push(t) =~= early + late.push(t));
            },
            None => {},
        }
    }
}

/// The tasks among `tasks` whose address is an email address, in order.
pub open spec fn servable(tasks: Seq<TaskView>) -> Seq<TaskView> {
    tasks.filter(|t: TaskView| deliverable(t))
}

/// Where every address is an email address, every task is servable.
pub proof fn lemma_all_servable(q: Seq<RowView>, n: int)
    requires
        all_deliverable(q),
        0 <= n <= q.len(),
    ensures
        servable(tasks_of(q).take(n)) == tasks_of(q).take(n),
    decreases n,
{
    reveal(Seq::filter);
    let tasks = tasks_of(q).take(n);
    if n > 0 {
        lemma_all_servable(q, n - 1);
        assert(tasks.drop_last() =~= tasks_of(q).take(n - 1));
        assert(tasks.last() == q[n - 1].task);
        assert(deliverable(q[n - 1].task));
        assert(tasks.drop_last().push(tasks.last()) =~= tasks);
    }
}

/// With a transport that takes every email, each cycle serves the next row:
/// after `cycles` cycles the first `cycles` rows are gone and nothing else has
/// changed, and the transport was called once for each of those rows whose
/// address is an email address, in their order.
pub proof fn lemma_willing_transport_progress(q: Seq<RowView>, worker: u64, cycles: nat)
    requires
        distinct_tasks(q),
        all_unclaimed(q),
        cycles <= q.len(),
    ensures
        run(q, worker, true, cycles).0 == q.skip(cycles as int),
        run(q, worker, true, cycles).1 == servable(tasks_of(q).take(cycles as int)),
    decreases cycles,
{
    reveal(Seq::filter);
    if cycles == 0 {
        assert(q.skip(0) =~= q);
        assert(tasks_of(q).take(0) =~= Seq::<TaskView>::empty());
    } else {
        let done = (cycles - 1) as nat;
        lemma_willing_transport_progress(q, worker, done);
        let rest = q.skip(done as int);
        lemma_skip_keeps(q, done as int);
        lemma_cycle_takes_first(rest, worker, true);
        assert(rest.skip(1) =~= q.skip(cycles as int));
        assert(rest[0] == q[done as int]);
        let served = tasks_of(q).take(cycles as int);
        assert(served.drop_last() =~= tasks_of(q).take(done as int));
        assert(served.last() == q[done as int].task);
    }
}

/// A worker with a transport that takes every email drains the queue. Once it
/// has run as many cycles as there were rows, and however many more, no row
/// remains, and exactly one send was made for each row whose address is an
/// email address, in the order of the rows: for each row that there was,
/// where every address is one.
pub proof fn lemma_willing_transport_drains(q: Seq<RowView>, worker: u64, cycles: nat)
    requires
        distinct_tasks(q),
        all_unclaimed(q),
        cycles >= q.len(),
    ensures
        run(q, worker, true, cycles).0 == Seq::<RowView>::empty(),
        run(q, worker, true, cycles).1 == servable(tasks_of(q)),
        all_deliverable(q) ==> run(q, worker, true, cycles).1 == tasks_of(q),
    decreases cycles,
{
    if cycles == q.len() {
        lemma_willing_transport_progress(q, worker, cycles);
        assert(q.skip(q.len() as int) =~= Seq::<RowView>::empty());
        assert(tasks_of(q).take(q.len() as int) =~= tasks_of(q));
        if all_deliverable(q) {
            lemma_all_servable(q, q.len() as int);
        }
    } else {
        lemma_willing_transport_drains(q, worker, (cycles - 1) as nat);
        lemma_cycle_on_empty(run(q, worker, true, (cycles - 1) as nat).0, worker, true);
    }
}

/// With a transport that fails every call and addresses that are all email
/// addresses, each cycle tries the first row and moves it behind the others:
/// after `cycles` cycles the queue is turned by that many rows, and the
/// transport was called once for each row that was passed.
pub proof fn lemma_failing_transport_turns(q: Seq<RowView>, worker: u64, cycles: nat)
    requires
        distinct_tasks(q),
        all_unclaimed(q),
        all_deliverable(q),
        cycles <= q.len(),
    ensures
        run(q, worker, false, cycles).0 == q.skip(cycles as int) + q.take(cycles as int),
        run(q, worker, false, cycles).1 == tasks_of(q).take(cycles as int),
    decreases cycles,
{
    if cycles == 0 {
        assert(q.skip(0) + q.take(0) =~= q);
        assert(tasks_of(q).take(0) =~= Seq::<TaskView>::empty());
    } else {
        let done = (cycles - 1) as nat;
        lemma_failing_transport_turns(q, worker, done);
        let turned = q.skip(done as int) + q.take(done as int);
        assert forall|i: int| 0 <= i < turned.len() implies #[trigger] turned[i] == q[if i < q.len()
            - done {
            i + done
        } else {
            i - (q.len() - done)
        }] by {}
        assert(distinct_tasks(turned)) by {
            assert forall|i: int, j: int|
                0 <= i < turned.len() && 0 <= j < turned.len() && i != j implies (
            #[trigger] turned[i]).task != (#[trigger] turned[j]).task by {
                let i0 = if i < q.len() - done {
                    i + done
                } else {
                    i - (q.len() - done)
                };
                let j0 = if j < q.len() - done {
                    j + done
                } else {
                    j - (q.len() - done)
                };
                assert(turned[i] == q[i0]);
                assert(turned[j] == q[j0]);
            }
        }
        assert(all_unclaimed(turned));
        assert(turned[0] == q[done as int]);
        lemma_cycle_takes_first(turned, worker, false);
        assert(turned.skip(1).push(turned[0]) =~= q.skip(cycles as int) + q.take(cycles as int));
        assert(tasks_of(q).take(done as int).push(q[done as int].task) =~= tasks_of(q).take(
            cycles as int,
        ));
    }
}

/// A transport that fails every call loses no task, and every task is tried
/// again in every round. Where every address is an email address, a round of
/// as many cycles as there are rows calls the transport once for each row and
/// leaves the queue exactly as it was; so after any number of rounds every
/// row is still there, and each was tried once in each round.
pub proof fn lemma_failing_transport_retries(q: Seq<RowView>, worker: u64, rounds: nat)
    requires
        distinct_tasks(q),
        all_unclaimed(q),
        all_deliverable(q),
    ensures
        run(q, worker, false, rounds * q.len()) == (q, repeated(tasks_of(q), rounds)),
    decreases rounds,
{
    if rounds == 0 {
        assert(rounds * q.len() == 0) by (nonlinear_arith)
            requires
                rounds == 0,
        ;
    } else {
        let earlier = (rounds - 1) as nat;
        lemma_failing_transport_retries(q, worker, earlier);
        assert(rounds * q.len() == earlier * q.len() + q.len()) by (nonlinear_arith)
            requires
                earlier == rounds - 1,
        ;
        lemma_run_adds_up(q, worker, false, earlier * q.len(), q.len());
        lemma_failing_transport_turns(q, worker, q.len());
        assert(q.skip(q.len() as int) + q.take(q.len() as int) =~= q);
        assert(tasks_of(q).take(q.len() as int) =~= tasks_of(q));
    }
}

/// A failing transport never causes a deletion. Whatever the addresses, one
/// cycle against a failing transport keeps every task whose address is an
/// email address, adds no task, and leaves the queue well formed with no row
/// held.
pub proof fn lemma_failed_cycle_keeps_tasks(q: Seq<RowView>, worker: u64)
    requires
        distinct_tasks(q),
        all_unclaimed(q),
    ensures
        distinct_tasks(cycle(q, worker, false).0),
        all_unclaimed(cycle(q, worker, false).0),
        forall|t: TaskView|
            has_task(q, t) && deliverable(t) ==> has_task(cycle(q, worker, false).0, t),
        forall|t: TaskView| has_task(cycle(q, worker, false).0, t) ==> has_task(q, t),
{
    let after = cycle(q, worker, false).0;
    if q.len() == 0 {
        lemma_cycle_on_empty(q, worker, false);
    } else {
        lemma_cycle_takes_first(q, worker, false);
        lemma_claim_keeps_distinct(q, worker);
        lemma_settle_keeps_distinct(
            claim(q, worker).0,
            worker,
            q[0].task,
            disposition_after(outcome_of(q[0].task, false)),
        );
        let rest = q.skip(1);
        assert forall|i: int| 0 <= i < rest.len() implies #[trigger] rest[i] == q[i + 1] by {}
        assert forall|i: int| 0 <= i < after.len() implies (#[trigger] after[i]).claimed_by is None by {
            if i < rest.len() {
                assert(after[i] == q[i + 1]);
            } else {
                assert(after[i] == q[0]);
            }
        }
        assert forall|t: TaskView| has_task(q, t) && deliverable(t) implies has_task(after, t) by {
            let i = choose|i: int| 0 <= i < q.len() && (#[trigger] q[i]).task == t;
            if i == 0 {
                assert(after[after.len() - 1] == q[0]);
            } else {
                assert(after[i - 1] == q[i]);
            }
        }
        assert forall|t: TaskView| has_task(after, t) implies has_task(q, t) by {
            let i = choose|i: int| 0 <= i < after.len() && (#[trigger] after[i]).task == t;
            if i < rest.len() {
                assert(after[i] == q[i + 1]);
            } else {
                assert(after[i] == q[0]);
            }
        }
    }
}

/// A transport that fails every call leaves every servable task in the queue
/// for good: after any number of cycles, each task whose address is an email
/// address is still queued, and no task has appeared.
pub proof fn lemma_failing_transport_loses_nothing(q: Seq<RowView>, worker: u64, cycles: nat)
    requires
        distinct_tasks(q),
        all_unclaimed(q),
    ensures
        distinct_tasks(run(q, worker, false, cycles).0),
        all_unclaimed(run(q, worker, false, cycles).0),
        forall|t: TaskView|
            has_task(q, t) && deliverable(t) ==> has_task(run(q, worker, false, cycles).0, t),
        forall|t: TaskView| has_task(run(q, worker, false, cycles).0, t) ==> has_task(q, t),
    decreases cycles,
{
    if cycles > 0 {
        lemma_failing_transport_loses_nothing(q, worker, (cycles - 1) as nat);
        lemma_failed_cycle_keeps_tasks(run(q, worker, false, (cycles - 1) as nat).0, worker);
    }
}

/// From publication to delivery. A new, valid command against a store whose
/// queue is empty, with recipients that are distinct email addresses, leaves
/// one task for each recipient; and a worker with a willing transport then
/// sends the issue once to each recipient, in the order of the list, and
/// leaves the queue empty.
pub proof fn lemma_published_issue_reaches_every_recipient(
    db: DatabaseView,
    cmd: PublishCommand,
    worker: u64,
)
    requires
        consistent(db),
        db.queue.len() == 0,
        valid_key(cmd.idempotency_key),
        newsletter_fault(cmd.title, cmd.html_content, cmd.text_content) is None,
        !db.records.contains_key((cmd.user_id, cmd.idempotency_key)),
        !has_issue(db.issues, cmd.issue_id),
        distinct_recipients(cmd.recipients),
        forall|i: int| 0 <= i < cmd.recipients.len() ==> valid_email(#[trigger] cmd.recipients[i]),
    ensures
        publish_spec(db, cmd).0.queue.len() == cmd.recipients.len(),
        run(publish_spec(db, cmd).0.queue, worker, true, cmd.recipients.len()) == (
            Seq::<RowView>::empty(),
            tasks_for(cmd.issue_id, cmd.recipients),
        ),
{
    lemma_new_command_takes_effect(db, cmd);
    let queue = publish_spec(db, cmd).0.queue;
    assert(queue =~= rows_of(cmd));
    assert(tasks_of(queue) =~= tasks_for(cmd.issue_id, cmd.recipients));
    assert forall|i: int| 0 <= i < queue.len() implies deliverable((#[trigger] queue[i]).task) by {
        assert(valid_email(cmd.recipients[i]));
    }
    lemma_willing_transport_drains(queue, worker, cmd.recipients.len());
}

/// Two workers never claim the same row. When one worker has claimed a task
/// and another claims next, the second gets a different task or none, and the
/// first still holds its own.
pub proof fn lemma_claims_are_exclusive(q: Seq<RowView>, first: u64, second: u64)
    requires
        distinct_tasks(q),
        claim(q, first).1 is Some,
    ensures
        claim(claim(q, first).0, second).1 != claim(q, first).1,
        first != second ==> holds(
            claim(claim(q, first).0, second).0,
            first,
            claim(q, first).1->Some_0,
        ),
        first != second && claim(claim(q, first).0, second).1 is Some ==> !holds(
            claim(claim(q, first).0, second).0,
            second,
            claim(q, first).1->Some_0,
        ),
{
    let (q1, t1) = claim(q, first);
    let (q2, t2) = claim(q1, second);
    lemma_first_unclaimed(q, 0);
    lemma_first_unclaimed(q1, 0);
    lemma_claim_keeps_distinct(q, first);
    lemma_claim_keeps_distinct(q1, second);
    let a = first_unclaimed_from(q, 0);
    let b = first_unclaimed_from(q1, 0);
    assert(q1[a].claimed_by == Some(first));
    if t2 is Some {
        assert(b != a);
        assert(q1[b].task != q1[a].task);
    }
    assert(q2[a].task == t1->Some_0);
    if first != second {
        assert(q2[a].claimed_by == Some(first));
        if t2 is Some && holds(q2, second, t1->Some_0) {
            let i = held_at(q2, second, t1->Some_0);
            assert(q2[i].task == q2[a].task);
        }
    }
}

/// What a worker may do to the queue: claim a row, or end its attempt on a
/// task with the transport's answer.
pub enum WorkerStep {
    Claim { worker: u64 },
    Finish { worker: u64, task: TaskView, accepts: bool },
}

/// The queue together with two logs: the tasks for which the transport was
/// called, and those among them that it accepted.
pub struct DeliveryState {
    pub queue: Seq<RowView>,
    pub sends: Seq<TaskView>,
    pub delivered: Seq<TaskView>,
}

/// The state in which workers find a queue: nothing sent yet.
pub open spec fn fresh_state(queue: Seq<RowView>) -> DeliveryState {
    DeliveryState { queue, sends: Seq::empty(), delivered: Seq::empty() }
}

/// The effect of one step. A worker that ends an attempt on a task that it
/// does not hold changes nothing. The transport is called, once, when the
/// attempt on a held task with an email address ends.
pub open spec fn after_step(state: DeliveryState, step: WorkerStep) -> DeliveryState {
    match step {
        WorkerStep::Claim { worker } => DeliveryState {
            queue: claim(state.queue, worker).0,
            ..state
        },
        WorkerStep::Finish { worker, task, accepts } => if holds(state.queue, worker, task) {
            DeliveryState {
                queue: settle(
                    state.queue,
                    worker,
                    task,
                    disposition_after(outcome_of(task, accepts)),
                ),
                sends: if deliverable(task) {
                    state.sends.push(task)
                } else {
                    state.sends
                },
                delivered: if deliverable(task) && accepts {
                    state.delivered.push(task)
                } else {
                    state.delivered
                },
            }
        } else {
            state
        },
    }
}

/// The effect of a schedule: the steps of any number of workers, in the order
/// in which they reach the store.
pub open spec fn after_schedule(state: DeliveryState, steps: Seq<WorkerStep>) -> DeliveryState
    decreases steps.len(),
{
    if steps.len() == 0 {
        state
    } else {
        after_step(after_schedule(state, steps.drop_last()), steps.last())
    }
}

/// The transport takes every email that the schedule hands to it.
pub open spec fn transport_always_accepts(steps: Seq<WorkerStep>) -> bool {
    forall|i: int|
        0 <= i < steps.len() ==> match #[trigger] steps[i] {
            WorkerStep::Claim { .. } => true,
            WorkerStep::Finish { accepts, .. } => accepts,
        }
}

/// What holds of a queue and its logs while workers serve the tasks of
/// `initial`, whatever the transport answers: the queue is well formed and
/// holds only tasks of `initial`; no task was delivered twice; every task
/// that was delivered is one of `initial` and is gone from the queue; and
/// every task of `initial` with an email address is either still queued or
/// was delivered.
pub open spec fn served_once_and_not_lost(initial: Seq<RowView>, state: DeliveryState) -> bool {
    &&& distinct_tasks(state.queue)
    &&& state.delivered.no_duplicates()
    &&& forall|t: TaskView| has_task(state.queue, t) ==> has_task(initial, t)
    &&& forall|i: int|
        0 <= i < state.delivered.len() ==> has_task(initial, #[trigger] state.delivered[i])
            && !has_task(state.queue, state.delivered[i])
    &&& forall|t: TaskView|
        has_task(initial, t) && deliverable(t) ==> has_task(state.queue, t)
            || state.delivered.contains(t)
}

/// The tasks of a queue after a held row was deleted: those that were there,
/// but for the row's own.
proof fn lemma_tasks_after_delete(q: Seq<RowView>, at: int)
    requires
        distinct_tasks(q),
        0 <= at < q.len(),
    ensures
        forall|t: TaskView| has_task(q.remove(at), t) <==> (has_task(q, t) && t != q[at].task),
{
    let after = q.remove(at);
    assert forall|i: int| 0 <= i < after.len() implies #[trigger] after[i] == q[if i < at {
        i
    } else {
        i + 1
    }] by {}
    assert forall|t: TaskView| has_task(after, t) <==> (has_task(q, t) && t != q[at].task) by {
        if has_task(after, t) {
            let i = choose|i: int| 0 <= i < after.len() && (#[trigger] after[i]).task == t;
            let i0 = if i < at {
                i
            } else {
                i + 1
            };
            assert(q[i0].task == t);
            assert(i0 != at);
        }
        if has_task(q, t) && t != q[at].task {
            let i = choose|i: int| 0 <= i < q.len() && (#[trigger] q[i]).task == t;
            let i1 = if i < at {
                i
            } else {
                i - 1
            };
            assert(after[i1].task == t);
        }
    }
}

/// One step of any worker, whatever the transport answers, keeps
/// `served_once_and_not_lost`.
pub proof fn lemma_step_serves_once_and_loses_nothing(
    initial: Seq<RowView>,
    state: DeliveryState,
    step: WorkerStep,
)
    requires
        served_once_and_not_lost(initial, state),
    ensures
        served_once_and_not_lost(initial, after_step(state, step)),
{
    let after = after_step(state, step);
    match step {
        WorkerStep::Claim { worker } => {
            lemma_claim_keeps_distinct(state.queue, worker);
            lemma_first_unclaimed(state.queue, 0);
            assert forall|t: TaskView| has_task(after.queue, t) <==> has_task(state.queue, t) by {
                if has_task(after.queue, t) {
                    let i = choose|i: int|
                        0 <= i < after.queue.len() && (#[trigger] after.queue[i]).task == t;
                    assert(state.queue[i].task == t);
                }
                if has_task(state.queue, t) {
                    let i = choose|i: int|
                        0 <= i < state.queue.len() && (#[trigger] state.queue[i]).task == t;
                    assert(after.queue[i].task == t);
                }
            }
        },
        WorkerStep::Finish { worker, task, accepts } => {
            if holds(state.queue, worker, task) {
                let at = held_at(state.queue, worker, task);
                let how = disposition_after(outcome_of(task, accepts));
                lemma_settle_keeps_distinct(state.queue, worker, task, how);
                let shorter = state.queue.remove(at);
                lemma_tasks_after_delete(state.queue, at);
                assert(has_task(state.queue, task)) by {
                    assert(state.queue[at].task == task);
                }
                if how == Disposition::Retain {
                    // The row is moved, not lost: the queue holds the tasks
                    // that it held.
                    assert(after.queue == shorter.push(pending(task)));
                    assert forall|t: TaskView| has_task(after.queue, t) <==> has_task(
                        state.queue,
                        t,
                    ) by {
                        if has_task(after.queue, t) {
                            let i = choose|i: int|
                                0 <= i < after.queue.len() && (#[trigger] after.queue[i]).task == t;
                            if i < shorter.len() {
                                assert(shorter[i].task == t);
                            }
                        }
                        if has_task(state.queue, t) {
                            if t == task {
                                assert(after.queue[shorter.len() as int].task == t);
                            } else {
                                let i = choose|i: int|
                                    0 <= i < shorter.len() && (#[trigger] shorter[i]).task == t;
                                assert(after.queue[i].task == t);
                            }
                        }
                    }
                    assert(after.delivered == state.delivered);
                } else if deliverable(task) && accepts {
                    assert(!state.delivered.contains(task)) by {
                        if state.delivered.contains(task) {
                            let i = choose|i: int|
                                0 <= i < state.delivered.len() && state.delivered[i] == task;
                            assert(!has_task(state.queue, state.delivered[i]));
                        }
                    }
                    assert forall|i: int, j: int|
                        0 <= i < after.delivered.len() && 0 <= j < after.delivered.len() && i
                            != j implies after.delivered[i] != after.delivered[j] by {
                        if i < state.delivered.len() && j < state.delivered.len() {
                            assert(state.delivered[i] != state.delivered[j]);
                        } else if i < state.delivered.len() {
                            assert(state.delivered.contains(state.delivered[i]));
                        } else {
                            assert(state.delivered.contains(state.delivered[j]));
                        }
                    }
                    assert forall|i: int| 0 <= i < after.delivered.len() implies has_task(
                        initial,
                        #[trigger] after.delivered[i],
                    ) && !has_task(after.queue, after.delivered[i]) by {
                        if i < state.delivered.len() {
                            assert(after.delivered[i] == state.delivered[i]);
                        }
                    }
                    assert forall|t: TaskView| has_task(initial, t) && deliverable(t) implies has_task(
                        after.queue,
                        t,
                    ) || after.delivered.contains(t) by {
                        if t == task {
                            assert(after.delivered[after.delivered.len() - 1] == t);
                        } else if state.delivered.contains(t) {
                            let i = choose|i: int|
                                0 <= i < state.delivered.len() && state.delivered[i] == t;
                            assert(after.delivered[i] == t);
                        }
                    }
                } else {
                    // A task that can never be served is given up.
                    assert(!deliverable(task));
                    assert(after.delivered == state.delivered);
                    assert forall|i: int| 0 <= i < after.delivered.len() implies has_task(
                        initial,
                        #[trigger] after.delivered[i],
                    ) && !has_task(after.queue, after.delivered[i]) by {}
                }
            }
        },
    }
}

/// No task is delivered twice and none is lost, whatever happens. Start from
/// a well-formed queue, and let any number of workers claim and finish in any
/// order, with a transport that answers as it likes. Then at every moment no
/// task was delivered twice, every delivered task is gone from the queue, and
/// every task with an email address is still queued or was delivered: once
/// the queue is empty, each such task was delivered exactly once.
pub proof fn lemma_workers_deliver_each_task_once(initial: Seq<RowView>, steps: Seq<WorkerStep>)
    requires
        distinct_tasks(initial),
    ensures
        served_once_and_not_lost(initial, after_schedule(fresh_state(initial), steps)),
    decreases steps.len(),
{
    if steps.len() > 0 {
        lemma_workers_deliver_each_task_once(initial, steps.drop_last());
        lemma_step_serves_once_and_loses_nothing(
            initial,
            after_schedule(fresh_state(initial), steps.drop_last()),
            steps.last(),
        );
    }
}

/// With a transport that takes every email, every call of it delivers: the
/// log of the sends is the log of the deliveries.
pub proof fn lemma_willing_transport_delivers_every_send(initial: Seq<RowView>, steps: Seq<WorkerStep>)
    requires
        transport_always_accepts(steps),
    ensures
        after_schedule(fresh_state(initial), steps).sends == after_schedule(
            fresh_state(initial),
            steps,
        ).delivered,
    decreases steps.len(),
{
    if steps.len() > 0 {
        let earlier = steps.drop_last();
        assert forall|i: int| 0 <= i < earlier.len() implies match #[trigger] earlier[i] {
            WorkerStep::Claim { .. } => true,
            WorkerStep::Finish { accepts, .. } => accepts,
        } by {
            assert(earlier[i] == steps[i]);
        }
        lemma_willing_transport_delivers_every_send(initial, earlier);
        assert(steps.last() == steps[steps.len() - 1]);
    }
}

/// Workers side by side never send a task twice. With a transport that takes
/// every email, whatever the number of workers and the order of their steps,
/// the transport is never called twice for one task; every task for which it
/// was called is gone from the queue; and once the queue is empty, it was
/// called exactly once for each task with an email address.
pub proof fn lemma_workers_send_each_task_once(initial: Seq<RowView>, steps: Seq<WorkerStep>)
    requires
        distinct_tasks(initial),
        transport_always_accepts(steps),
    ensures
        after_schedule(fresh_state(initial), steps).sends.no_duplicates(),
        forall|i: int|
            0 <= i < after_schedule(fresh_state(initial), steps).sends.len() ==> !has_task(
                after_schedule(fresh_state(initial), steps).queue,
                #[trigger] after_schedule(fresh_state(initial), steps).sends[i],
            ),
        forall|t: TaskView|
            has_task(initial, t) && deliverable(t) ==> has_task(
                after_schedule(fresh_state(initial), steps).queue,
                t,
            ) || after_schedule(fresh_state(initial), steps).sends.contains(t),
{
    lemma_workers_deliver_each_task_once(initial, steps);
    lemma_willing_transport_delivers_every_send(initial, steps);
}

} // verus!
