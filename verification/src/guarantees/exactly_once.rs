//! A publish command takes effect once for each caller and key, and every
//! submission of it is answered with the same bytes.

use crate::database::{
    apply_writes, consistent, has_issue, insert_issues, lemma_apply_keeps_consistent, rolled_back,
    tasks_for, tasks_reference_issues, DatabaseView, TransactionView, WritesView,
};
use crate::idempotency::guard::{
    save_response_spec, try_processing_spec, IdempotencyError, NextActionView,
};
use crate::idempotency::key::valid_key;
use crate::idempotency::persistence::{status_of, RecordView};
use crate::idempotency::response::{
    header_fault_from, replayable, valid_name_char, valid_value_byte, ResponseView,
};
use crate::issue_delivery_queue::{
    distinct_tasks, has_task, insert_tasks, pending, RowView, TaskView,
};
use crate::newsletter::{newsletter_fault, IssueView, NewsletterView};
use crate::publish::{
    key_fault, publish_spec, published_response, PublishCommand, PublishError,
};
use vstd::prelude::*;

verus! {

/// No string occurs twice in the list.
pub open spec fn distinct_recipients(recipients: Seq<Seq<char>>) -> bool {
    forall|i: int, j: int|
        0 <= i < recipients.len() && 0 <= j < recipients.len() && i != j ==> recipients[i]
            != recipients[j]
}

/// The issue that a publish command creates.
pub open spec fn issue_of(cmd: PublishCommand) -> IssueView {
    IssueView {
        id: cmd.issue_id,
        content: NewsletterView {
            title: cmd.title,
            html_content: cmd.html_content,
            text_content: cmd.text_content,
        },
        published_at: cmd.now,
    }
}

/// The rows that a publish command adds to the queue: one unclaimed row for
/// each recipient.
pub open spec fn rows_of(cmd: PublishCommand) -> Seq<RowView> {
    Seq::new(
        cmd.recipients.len(),
        |i: int| pending(TaskView { issue_id: cmd.issue_id, recipient: cmd.recipients[i] }),
    )
}

/// Two commands are submissions of the same command: same caller, same key,
/// same content. The issue identifier that would be drawn, the subscribers
/// of the moment and the time may differ.
pub open spec fn same_command(first: PublishCommand, second: PublishCommand) -> bool {
    &&& first.user_id == second.user_id
    &&& first.idempotency_key == second.idempotency_key
    &&& first.title == second.title
    &&& first.html_content == second.html_content
    &&& first.text_content == second.text_content
}

/// The response of a publish command can be replayed.
pub proof fn lemma_published_response_replayable()
    ensures
        replayable(published_response()),
{
    reveal_strlit("location");
    reveal_strlit("/admin/newsletters");
    let response = published_response();
    let name = response.headers[0].name;
    assert forall|i: int| 0 <= i < name.len() implies valid_name_char(#[trigger] name[i]) by {}
    let value = response.headers[0].value;
    assert forall|i: int| 0 <= i < value.len() implies valid_value_byte(#[trigger] value[i]) by {}
    assert(header_fault_from(response.headers, 1) is None);
    assert(header_fault_from(response.headers, 0) is None);
}

/// Tasks for an issue that the queue knows nothing of, one for each of a list
/// of distinct recipients, can all be queued.
pub proof fn lemma_new_tasks_fit(q: Seq<RowView>, issue_id: u128, recipients: Seq<Seq<char>>)
    requires
        distinct_tasks(q),
        forall|i: int| 0 <= i < q.len() ==> (#[trigger] q[i]).task.issue_id != issue_id,
        distinct_recipients(recipients),
    ensures
        insert_tasks(q, tasks_for(issue_id, recipients)) == Some(
            q + Seq::new(
                recipients.len(),
                |i: int| pending(TaskView { issue_id, recipient: recipients[i] }),
            ),
        ),
    decreases recipients.len(),
{
    let tasks = tasks_for(issue_id, recipients);
    let rows = Seq::new(
        recipients.len(),
        |i: int| pending(TaskView { issue_id, recipient: recipients[i] }),
    );
    if recipients.len() == 0 {
        assert(q + rows =~= q);
    } else {
        let front = recipients.drop_last();
        assert forall|i: int, j: int|
            0 <= i < front.len() && 0 <= j < front.len() && i != j implies front[i] != front[j] by {
            assert(front[i] == recipients[i]);
            assert(front[j] == recipients[j]);
        }
        lemma_new_tasks_fit(q, issue_id, front);
        assert(tasks.drop_last() =~= tasks_for(issue_id, front));
        let longer = q + Seq::new(
            front.len(),
            |i: int| pending(TaskView { issue_id, recipient: front[i] }),
        );
        let last = tasks.last();
        if has_task(longer, last) {
            let i = choose|i: int| 0 <= i < longer.len() && (#[trigger] longer[i]).task == last;
            if i < q.len() {
                assert(longer[i] == q[i]);
            } else {
                assert(front[i - q.len()] == recipients[i - q.len()]);
                assert(recipients[i - q.len()] == recipients[recipients.len() - 1]);
            }
        }
        assert(longer.push(pending(last)) =~= q + rows);
    }
}

/// The effect of a new command. Where the key and the content are valid, the
/// store has no record under the caller and key, the issue identifier is not
/// taken and no recipient is listed twice, the command succeeds with the
/// redirect, and in one step the store gains the finished record, exactly one
/// issue, and exactly one unclaimed task for each recipient. Nothing else
/// changes.
pub proof fn lemma_new_command_takes_effect(db: DatabaseView, cmd: PublishCommand)
    requires
        consistent(db),
        valid_key(cmd.idempotency_key),
        newsletter_fault(cmd.title, cmd.html_content, cmd.text_content) is None,
        !db.records.contains_key((cmd.user_id, cmd.idempotency_key)),
        !has_issue(db.issues, cmd.issue_id),
        distinct_recipients(cmd.recipients),
    ensures
        publish_spec(db, cmd).1 == Ok::<ResponseView, PublishError>(published_response()),
        publish_spec(db, cmd).0 == (DatabaseView {
            records: db.records.insert(
                (cmd.user_id, cmd.idempotency_key),
                RecordView { created_at: cmd.now, response: Some(published_response()) },
            ),
            issues: db.issues.push(issue_of(cmd)),
            queue: db.queue + rows_of(cmd),
        }),
        consistent(publish_spec(db, cmd).0),
{
    let k = (cmd.user_id, cmd.idempotency_key);
    let begun = try_processing_spec(db, cmd.user_id, cmd.idempotency_key, cmd.now).0;
    let writes = WritesView {
        issues: Seq::<IssueView>::empty().push(issue_of(cmd)),
        tasks: Seq::<TaskView>::empty() + tasks_for(cmd.issue_id, cmd.recipients),
    };
    assert(writes.tasks =~= tasks_for(cmd.issue_id, cmd.recipients));
    assert(writes.issues.drop_last() =~= Seq::<IssueView>::empty());
    assert(insert_issues(begun.issues, writes.issues.drop_last()) == Some(begun.issues));
    let issues = db.issues.push(issue_of(cmd));
    assert(insert_issues(begun.issues, writes.issues) == Some(issues));
    assert(issues[db.issues.len() as int].id == cmd.issue_id);
    assert(tasks_reference_issues(issues, writes.tasks));
    assert forall|i: int| 0 <= i < db.queue.len() implies (#[trigger] db.queue[i]).task.issue_id
        != cmd.issue_id by {
        assert(has_issue(db.issues, db.queue[i].task.issue_id));
    }
    lemma_new_tasks_fit(db.queue, cmd.issue_id, cmd.recipients);
    assert(rows_of(cmd) =~= Seq::new(
        cmd.recipients.len(),
        |i: int| pending(TaskView { issue_id: cmd.issue_id, recipient: cmd.recipients[i] }),
    ));
    assert(apply_writes(begun, writes) is Ok);
    lemma_apply_keeps_consistent(begun, writes);
    assert(status_of(begun.records, k) == Some(None::<ResponseView>));
    assert(begun.records.insert(
        k,
        RecordView { created_at: begun.records[k].created_at, response: Some(published_response()) },
    ) =~= db.records.insert(
        k,
        RecordView { created_at: cmd.now, response: Some(published_response()) },
    ));
}

/// A command that was answered is answered the same way ever after, and
/// changes nothing more. Where a submission succeeds, every later submission
/// of the same command, whatever identifier is drawn for it, whoever has
/// subscribed since and whenever it arrives, returns the same response byte
/// for byte and leaves the store as it is.
pub proof fn lemma_repeat_is_replayed(db: DatabaseView, first: PublishCommand, second: PublishCommand)
    requires
        same_command(first, second),
        publish_spec(db, first).1 is Ok,
    ensures
        publish_spec(publish_spec(db, first).0, second) == publish_spec(db, first),
{
    let k = (first.user_id, first.idempotency_key);
    lemma_published_response_replayable();
    let after = publish_spec(db, first).0;
    if db.records.contains_key(k) {
        assert(after == db);
    } else {
        assert(after.records.contains_key(k));
        assert(status_of(after.records, k) == Some(Some(published_response())));
    }
}

/// A command takes effect exactly once. Of two submissions of a new, valid
/// command, made one after the other, the first creates one issue and one
/// task for each recipient, and the second creates nothing; both return the
/// same response.
pub proof fn lemma_exactly_once(db: DatabaseView, first: PublishCommand, second: PublishCommand)
    requires
        consistent(db),
        valid_key(first.idempotency_key),
        newsletter_fault(first.title, first.html_content, first.text_content) is None,
        !db.records.contains_key((first.user_id, first.idempotency_key)),
        !has_issue(db.issues, first.issue_id),
        distinct_recipients(first.recipients),
        same_command(first, second),
    ensures
        publish_spec(db, first).1 == Ok::<ResponseView, PublishError>(published_response()),
        publish_spec(publish_spec(db, first).0, second).1 == publish_spec(db, first).1,
        publish_spec(publish_spec(db, first).0, second).0.issues == db.issues.push(issue_of(first)),
        publish_spec(publish_spec(db, first).0, second).0.queue == db.queue + rows_of(first),
{
    lemma_new_command_takes_effect(db, first);
    lemma_repeat_is_replayed(db, first, second);
}

/// A duplicate that arrives while the first submission is still in flight is
/// refused and changes nothing: between the first submission's two steps, a
/// second `try_processing` under the same caller and key fails with
/// `ConflictInProgress` and leaves the store as the first step left it. The
/// command's effect is therefore still applied once, by the first submission
/// alone.
pub proof fn lemma_duplicate_in_flight_is_refused(
    db: DatabaseView,
    user_id: u128,
    key: Seq<char>,
    first_at: i64,
    second_at: i64,
)
    requires
        !db.records.contains_key((user_id, key)),
    ensures
        try_processing_spec(db, user_id, key, first_at).1 is Ok,
        try_processing_spec(db, user_id, key, first_at).1->Ok_0 is StartProcessing,
        try_processing_spec(
            try_processing_spec(db, user_id, key, first_at).0,
            user_id,
            key,
            second_at,
        ) == (
            try_processing_spec(db, user_id, key, first_at).0,
            Err::<NextActionView, IdempotencyError>(IdempotencyError::ConflictInProgress),
        ),
{
    let begun = try_processing_spec(db, user_id, key, first_at).0;
    assert(begun.records.contains_key((user_id, key)));
}

/// A command with a malformed key is refused before the store is touched: no
/// record is filed and nothing else changes.
pub proof fn lemma_invalid_key_touches_nothing(db: DatabaseView, cmd: PublishCommand)
    requires
        !valid_key(cmd.idempotency_key),
    ensures
        publish_spec(db, cmd).0 == db,
        publish_spec(db, cmd).1 == Err::<ResponseView, PublishError>(
            PublishError::InvalidKey(key_fault(cmd.idempotency_key)->Some_0),
        ),
        key_fault(cmd.idempotency_key) is Some,
{
}

/// A saved response is final. Once a command has finished, no publish command,
/// under whatever caller and key, changes or removes its record: the response
/// that the first caller got is the one that every repeat will get.
pub proof fn lemma_saved_response_is_final(
    db: DatabaseView,
    cmd: PublishCommand,
    finished: (u128, Seq<char>),
)
    requires
        status_of(db.records, finished) is Some,
        status_of(db.records, finished)->Some_0 is Some,
    ensures
        publish_spec(db, cmd).0.records.contains_key(finished),
        publish_spec(db, cmd).0.records[finished] == db.records[finished],
{
    if finished == (cmd.user_id, cmd.idempotency_key) {
        assert(db.records.contains_key(finished));
    }
}

/// Commands under different callers or keys do not disturb each other: a
/// publish command leaves every record but its own as it was.
pub proof fn lemma_other_records_untouched(
    db: DatabaseView,
    cmd: PublishCommand,
    other: (u128, Seq<char>),
)
    requires
        other != (cmd.user_id, cmd.idempotency_key),
    ensures
        publish_spec(db, cmd).0.records.contains_key(other) == db.records.contains_key(other),
        db.records.contains_key(other) ==> publish_spec(db, cmd).0.records[other]
            == db.records[other],
{
}

/// One step of a command on the store: its first step, its last step, or its
/// withdrawal.
pub enum CommandStep {
    /// `try_processing` under a caller and key at a time.
    Begin { user_id: u128, key: Seq<char>, now: i64 },
    /// `save_response` under a caller and key, with a response and a
    /// transaction.
    Save { user_id: u128, key: Seq<char>, response: ResponseView, transaction: TransactionView },
    /// The withdrawal of the unfinished command under a caller and key.
    Rollback { user_id: u128, key: Seq<char> },
}

/// The store together with the log of the commands whose work was committed.
pub struct CommandState {
    pub db: DatabaseView,
    pub committed: Seq<(u128, Seq<char>)>,
}

/// The effect of one step. The work of a command is committed when its
/// `save_response` succeeds, and only then.
pub open spec fn after_command_step(state: CommandState, step: CommandStep) -> CommandState {
    match step {
        CommandStep::Begin { user_id, key, now } => CommandState {
            db: try_processing_spec(state.db, user_id, key, now).0,
            committed: state.committed,
        },
        CommandStep::Save { user_id, key, response, transaction } => {
            let (db, saved) = save_response_spec(state.db, user_id, key, response, transaction);
            CommandState {
                db,
                committed: if saved is Ok {
                    state.committed.push(transaction.owner)
                } else {
                    state.committed
                },
            }
        },
        CommandStep::Rollback { user_id, key } => CommandState {
            db: rolled_back(state.db, (user_id, key)),
            committed: state.committed,
        },
    }
}

/// The effect of a schedule: the steps of any number of submissions, in the
/// order in which they reach the store.
pub open spec fn after_commands(state: CommandState, steps: Seq<CommandStep>) -> CommandState
    decreases steps.len(),
{
    if steps.len() == 0 {
        state
    } else {
        after_command_step(after_commands(state, steps.drop_last()), steps.last())
    }
}

/// Whether the record under `k` holds a response.
pub open spec fn finished(db: DatabaseView, k: (u128, Seq<char>)) -> bool {
    status_of(db.records, k) is Some && status_of(db.records, k)->Some_0 is Some
}

/// The work of a command and its response are durable together: no command
/// was committed twice, and a command was committed exactly when its record
/// holds a response.
pub open spec fn committed_once_with_response(state: CommandState) -> bool {
    &&& state.committed.no_duplicates()
    &&& forall|k: (u128, Seq<char>)| state.committed.contains(k) <==> finished(state.db, k)
}

/// One step of any submission keeps `committed_once_with_response`.
pub proof fn lemma_step_commits_once(state: CommandState, step: CommandStep)
    requires
        committed_once_with_response(state),
    ensures
        committed_once_with_response(after_command_step(state, step)),
{
    let after = after_command_step(state, step);
    match step {
        CommandStep::Begin { user_id, key, now } => {
            assert forall|k: (u128, Seq<char>)| finished(after.db, k) <==> finished(state.db, k) by {}
        },
        CommandStep::Rollback { user_id, key } => {
            assert forall|k: (u128, Seq<char>)| finished(after.db, k) <==> finished(state.db, k) by {}
        },
        CommandStep::Save { user_id, key, response, transaction } => {
            let owner = transaction.owner;
            let saved = save_response_spec(state.db, user_id, key, response, transaction).1;
            if saved is Ok {
                assert(!finished(state.db, owner));
                assert(!state.committed.contains(owner));
                assert(finished(after.db, owner));
                assert forall|k: (u128, Seq<char>)| k != owner implies (finished(after.db, k)
                    <==> finished(state.db, k)) by {}
                assert forall|i: int, j: int|
                    0 <= i < after.committed.len() && 0 <= j < after.committed.len() && i
                        != j implies after.committed[i] != after.committed[j] by {
                    if i < state.committed.len() && j < state.committed.len() {
                        assert(state.committed[i] != state.committed[j]);
                    } else if i < state.committed.len() {
                        assert(state.committed.contains(state.committed[i]));
                    } else {
                        assert(state.committed.contains(state.committed[j]));
                    }
                }
                assert forall|k: (u128, Seq<char>)| after.committed.contains(k) <==> finished(
                    after.db,
                    k,
                ) by {
                    if after.committed.contains(k) {
                        let i = choose|i: int| 0 <= i < after.committed.len() && after.committed[i] == k;
                        if i < state.committed.len() {
                            assert(state.committed.contains(k));
                        }
                    }
                    if finished(after.db, k) {
                        if k == owner {
                            assert(after.committed[after.committed.len() - 1] == k);
                        } else {
                            assert(state.committed.contains(k));
                            let i = choose|i: int|
                                0 <= i < state.committed.len() && state.committed[i] == k;
                            assert(after.committed[i] == k);
                        }
                    }
                }
            } else {
                assert forall|k: (u128, Seq<char>)| finished(after.db, k) <==> finished(
                    state.db,
                    k,
                ) by {}
            }
        },
    }
}

/// A command takes effect at most once, whatever the interleaving. Start from
/// a store in which no command has finished, and let any number of
/// submissions, of the same command or of others, take their steps in any
/// order, duplicates in flight and withdrawals included. Then at every moment
/// the work of no command was committed twice, and the work of a command is
/// committed exactly when its response is saved: there is no moment at which
/// one is durable without the other.
pub proof fn lemma_commands_commit_once(db: DatabaseView, steps: Seq<CommandStep>)
    requires
        forall|k: (u128, Seq<char>)| !finished(db, k),
    ensures
        committed_once_with_response(
            after_commands(CommandState { db, committed: Seq::empty() }, steps),
        ),
    decreases steps.len(),
{
    let start = CommandState { db, committed: Seq::empty() };
    if steps.len() > 0 {
        lemma_commands_commit_once(db, steps.drop_last());
        lemma_step_commits_once(after_commands(start, steps.drop_last()), steps.last());
    }
}

} // verus!
