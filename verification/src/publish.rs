//! The publish command: a newsletter issue is stored and one delivery task is
//! queued for each confirmed subscriber, once for each caller and key however
//! often the command is submitted.

use crate::database::{
    strings_view, tasks_for, Database, DatabaseView, Transaction, TransactionView, WritesView,
};
use crate::idempotency::guard::{
    process_once, save_response_spec, try_processing_spec, GuardError, IdempotencyError,
    NextActionView, SaveError,
};
use crate::idempotency::key::{valid_key, IdempotencyKey, KeyError};
use crate::idempotency::response::{
    see_other_view, valid_header_value, valid_value_byte, ResponseView, SavedHttpResponse,
};
use crate::newsletter::{newsletter_fault, IssueView, Newsletter, NewsletterError, NewsletterView};
use vstd::prelude::*;
use vstd::string::*;

verus! {

/// Why a publish command was not carried out.
#[derive(Clone, Copy, Debug, PartialEq, Eq, Structural)]
pub enum PublishError {
    /// The idempotency key is malformed: the caller's fault.
    InvalidKey(KeyError),
    /// A field of the newsletter is blank: the caller's fault.
    InvalidNewsletter(NewsletterError),
    /// The command was submitted before and cannot be answered from the
    /// store.
    Idempotency(IdempotencyError),
    /// The command's work could not be committed.
    Save(SaveError),
}

impl PublishError {
    /// The HTTP status with which the error is answered. A malformed key is
    /// a bad request. A blank field sends the author back to the form. A
    /// command in progress is a conflict. Anything else is a fault of the
    /// server.
    pub fn status_code(&self) -> (code: u16)
        ensures
            code == (match self {
                PublishError::InvalidKey(_) => 400u16,
                PublishError::InvalidNewsletter(_) => 303u16,
                PublishError::Idempotency(IdempotencyError::ConflictInProgress) => 409u16,
                PublishError::Idempotency(_) => 500u16,
                PublishError::Save(_) => 500u16,
            }),
    {
        match self {
            PublishError::InvalidKey(_) => 400,
            PublishError::InvalidNewsletter(_) => 303,
            PublishError::Idempotency(e) => e.status_code(),
            PublishError::Save(_) => 500,
        }
    }
}

/// A publish command as it reaches the guard.
pub struct PublishCommand {
    /// Who submits the command.
    pub user_id: u128,
    /// The key as the caller sent it, not yet validated.
    pub idempotency_key: Seq<char>,
    pub title: Seq<char>,
    pub html_content: Seq<char>,
    pub text_content: Seq<char>,
    /// The identifier that the new issue gets, if one is created.
    pub issue_id: u128,
    /// The confirmed subscribers at the moment of the command.
    pub recipients: Seq<Seq<char>>,
    /// The time of the command.
    pub now: i64,
}

/// The path that a publish command redirects to.
pub open spec fn newsletters_path() -> Seq<char> {
    "/admin/newsletters"@
}

/// The bytes of `newsletters_path`.
pub open spec fn newsletters_path_bytes() -> Seq<u8> {
    Seq::new(newsletters_path().len(), |i: int| newsletters_path()[i] as u8)
}

/// The response of a publish command that was carried out: a redirect to the
/// newsletters page.
pub open spec fn published_response() -> ResponseView {
    see_other_view(newsletters_path_bytes())
}

/// Why the key of a command is refused, if it is.
pub open spec fn key_fault(key: Seq<char>) -> Option<KeyError> {
    if key.len() == 0 {
        Some(KeyError::Empty)
    } else if !valid_key(key) {
        Some(KeyError::TooLong)
    } else {
        None
    }
}

/// What a transaction holds once the work of the command is staged in it: one
/// issue and one task for each recipient.
pub open spec fn staged_publication(transaction: TransactionView, cmd: PublishCommand)
    -> TransactionView {
    TransactionView {
        owner: transaction.owner,
        writes: WritesView {
            issues: transaction.writes.issues.push(
                IssueView {
                    id: cmd.issue_id,
                    content: NewsletterView {
                        title: cmd.title,
                        html_content: cmd.html_content,
                        text_content: cmd.text_content,
                    },
                    published_at: cmd.now,
                },
            ),
            tasks: transaction.writes.tasks + tasks_for(cmd.issue_id, cmd.recipients),
        },
    }
}

/// The publish command, start to finish. A malformed key or a blank field is
/// refused before the store is touched. Then the command is begun: a repeat
/// is answered with the saved response and nothing else happens; a new
/// command stages its issue and its tasks and commits them together with its
/// response.
pub open spec fn publish_spec(db: DatabaseView, cmd: PublishCommand) -> (
    DatabaseView,
    Result<ResponseView, PublishError>,
) {
    if let Some(e) = key_fault(cmd.idempotency_key) {
        (db, Err(PublishError::InvalidKey(e)))
    } else if let Some(e) = newsletter_fault(cmd.title, cmd.html_content, cmd.text_content) {
        (db, Err(PublishError::InvalidNewsletter(e)))
    } else {
        let (begun, next) = try_processing_spec(db, cmd.user_id, cmd.idempotency_key, cmd.now);
        match next {
            Err(e) => (begun, Err(PublishError::Idempotency(e))),
            Ok(NextActionView::ReturnSavedResponse(response)) => (begun, Ok(response)),
            Ok(NextActionView::StartProcessing(transaction)) => {
                let (after, saved) = save_response_spec(
                    begun,
                    cmd.user_id,
                    cmd.idempotency_key,
                    published_response(),
                    staged_publication(transaction, cmd),
                );
                match saved {
                    Ok(response) => (after, Ok(response)),
                    Err(e) => (after, Err(PublishError::Save(e))),
                }
            },
        }
    }
}

/// The view of what a publish command returns.
pub open spec fn publish_view(r: Result<SavedHttpResponse, PublishError>) -> Result<
    ResponseView,
    PublishError,
> {
    match r {
        Ok(response) => Ok(response@),
        Err(e) => Err(e),
    }
}

/// The path that a publish command redirects to.
pub fn newsletters_location() -> (path: &'static str)
    ensures
        path@ == newsletters_path(),
        path.spec_bytes() == newsletters_path_bytes(),
        valid_header_value(path.spec_bytes()),
{
    let path = "/admin/newsletters";
    proof {
        reveal_strlit("/admin/newsletters");
        assert(path.is_ascii());
        vstd::string::is_ascii_spec_bytes(path);
        assert(path.spec_bytes() =~= newsletters_path_bytes());
        assert forall|i: int| 0 <= i < path.spec_bytes().len() implies valid_value_byte(
            #[trigger] path.spec_bytes()[i],
        ) by {}
    }
    path
}

/// What is refused of the input of a command before the store is touched: a
/// malformed key first, then a blank field.
pub open spec fn input_fault(
    key: Seq<char>,
    title: Seq<char>,
    html_content: Seq<char>,
    text_content: Seq<char>,
) -> Option<PublishError> {
    if let Some(e) = key_fault(key) {
        Some(PublishError::InvalidKey(e))
    } else if let Some(e) = newsletter_fault(title, html_content, text_content) {
        Some(PublishError::InvalidNewsletter(e))
    } else {
        None
    }
}

/// Validates the input of a command: the key, then the fields of the
/// newsletter. Both are handed back unchanged where nothing is refused.
pub fn validate_command(
    idempotency_key: String,
    title: String,
    html_content: String,
    text_content: String,
) -> (r: Result<(IdempotencyKey, Newsletter), PublishError>)
    ensures
        match r {
            Ok((key, newsletter)) => {
                &&& input_fault(idempotency_key@, title@, html_content@, text_content@) is None
                &&& key@ == idempotency_key@
                &&& newsletter@ == (NewsletterView {
                    title: title@,
                    html_content: html_content@,
                    text_content: text_content@,
                })
            },
            Err(e) => input_fault(idempotency_key@, title@, html_content@, text_content@) == Some(e),
        },
{
    let idempotency_key = match IdempotencyKey::parse(idempotency_key) {
        Ok(key) => key,
        Err(e) => {
            return Err(PublishError::InvalidKey(e));
        },
    };
    match Newsletter::try_from(title, html_content, text_content) {
        Ok(newsletter) => Ok((idempotency_key, newsletter)),
        Err(e) => Err(PublishError::InvalidNewsletter(e)),
    }
}

/// `Uuid::new_v4`: a random identifier. Nothing is promised of its value.
#[verifier::external_body]
fn fresh_issue_id() -> (id: u128) {
    uuid::Uuid::new_v4().as_u128()
}

/// Carries out a publish command in which the new issue, if one is created,
/// gets the identifier `issue_id`. See `publish_spec`.
pub fn publish_newsletter_as(
    db: &mut Database,
    user_id: u128,
    idempotency_key: String,
    title: String,
    html_content: String,
    text_content: String,
    issue_id: u128,
    recipients: &Vec<String>,
    now: i64,
) -> (r: Result<SavedHttpResponse, PublishError>)
    requires
        old(db).wf(),
    ensures
        final(db).wf(),
        (final(db)@, publish_view(r)) == publish_spec(
            old(db)@,
            PublishCommand {
                user_id,
                idempotency_key: idempotency_key@,
                title: title@,
                html_content: html_content@,
                text_content: text_content@,
                issue_id,
                recipients: strings_view(recipients@),
                now,
            },
        ),
{
    let (idempotency_key, newsletter) = match validate_command(
        idempotency_key,
        title,
        html_content,
        text_content,
    ) {
        Ok(valid) => valid,
        Err(e) => {
            return Err(e);
        },
    };
    let ghost cmd = PublishCommand {
        user_id,
        idempotency_key: idempotency_key@,
        title: newsletter.title@,
        html_content: newsletter.html_content@,
        text_content: newsletter.text_content@,
        issue_id,
        recipients: strings_view(recipients@),
        now,
    };
    let work = |transaction: Transaction| -> (outcome: Result<
        (Transaction, SavedHttpResponse),
        PublishError,
    >)
        ensures
            outcome is Ok,
            outcome->Ok_0.0@ == staged_publication(transaction@, cmd),
            outcome->Ok_0.1@ == published_response(),
        {
            let mut transaction = transaction;
            let issue_id = transaction.insert_newsletter_issue(&newsletter, issue_id, now);
            transaction.enqueue_delivery_task(issue_id, recipients);
            Ok((transaction, SavedHttpResponse::redirect(newsletters_location())))
        };
    match process_once(user_id, &idempotency_key, db, now, work) {
        Ok(response) => Ok(response),
        Err(GuardError::Idempotency(e)) => Err(PublishError::Idempotency(e)),
        Err(GuardError::Work(e)) => Err(e),
        Err(GuardError::Save(e)) => Err(PublishError::Save(e)),
    }
}

/// Carries out a publish command under a freshly drawn issue identifier: the
/// outcome is that of `publish_spec` for some identifier.
pub fn publish_newsletter(
    db: &mut Database,
    user_id: u128,
    idempotency_key: String,
    title: String,
    html_content: String,
    text_content: String,
    recipients: &Vec<String>,
    now: i64,
) -> (r: Result<SavedHttpResponse, PublishError>)
    requires
        old(db).wf(),
    ensures
        final(db).wf(),
        exists|issue_id: u128|
            (final(db)@, publish_view(r)) == #[trigger] publish_spec(
                old(db)@,
                PublishCommand {
                    user_id,
                    idempotency_key: idempotency_key@,
                    title: title@,
                    html_content: html_content@,
                    text_content: text_content@,
                    issue_id,
                    recipients: strings_view(recipients@),
                    now,
                },
            ),
{
    let issue_id = fresh_issue_id();
    publish_newsletter_as(
        db,
        user_id,
        idempotency_key,
        title,
        html_content,
        text_content,
        issue_id,
        recipients,
        now,
    )
}

} // verus!
