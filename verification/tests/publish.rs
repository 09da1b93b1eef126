use newsletter::database::{CommitError, Database, PersistenceError};
use newsletter::idempotency::guard::{
    get_saved_response, save_response, try_processing, IdempotencyError, NextAction, SaveError,
};
use newsletter::idempotency::key::{IdempotencyKey, KeyError};
use newsletter::idempotency::response::SavedHttpResponse;
use newsletter::issue_delivery_queue::DeliveryTask;
use newsletter::issue_delivery_worker::{try_execute_task, ExecutionOutcome};
use newsletter::newsletter::NewsletterError;
use newsletter::publish::{
    publish_newsletter, publish_newsletter_as, validate_command, PublishError,
};

fn subscribers() -> Vec<String> {
    vec![
        "ann@example.com".to_string(),
        "bob@example.com".to_string(),
        "cyd@example.com".to_string(),
    ]
}

fn publish(db: &mut Database, key: &str, issue_id: u128, recipients: &Vec<String>) -> Result<SavedHttpResponse, PublishError> {
    publish_newsletter_as(
        db,
        7,
        key.to_string(),
        "T".to_string(),
        "H".to_string(),
        "X".to_string(),
        issue_id,
        recipients,
        1_700_000_000,
    )
}

fn same_bytes(a: &SavedHttpResponse, b: &SavedHttpResponse) -> bool {
    a.status_code() == b.status_code()
        && a.body() == b.body()
        && a.headers().len() == b.headers().len()
        && a
            .headers()
            .iter()
            .zip(b.headers().iter())
            .all(|(x, y)| x.name == y.name && x.value == y.value)
}

#[test]
fn publishing_twice_with_one_key_takes_effect_once() {
    let mut db = Database::new();
    let first = publish(&mut db, "abc123", 1, &subscribers()).unwrap();
    assert_eq!(first.status_code(), 303);
    assert_eq!(first.headers().len(), 1);
    assert_eq!(first.headers()[0].name, "location");
    assert_eq!(first.headers()[0].value, b"/admin/newsletters".to_vec());
    assert!(first.body().is_empty());
    assert_eq!(db.issue_count(), 1);
    assert_eq!(db.queue().len(), 3);

    let second = publish(&mut db, "abc123", 2, &subscribers()).unwrap();
    assert!(same_bytes(&first, &second));
    assert_eq!(db.issue_count(), 1);
    assert_eq!(db.queue().len(), 3);

    let mut sends: Vec<DeliveryTask> = Vec::new();
    let mut cycles = 0;
    while try_execute_task(&mut db, 1, true, &mut sends) == ExecutionOutcome::TaskCompleted {
        cycles += 1;
        assert!(cycles <= 3);
    }
    assert_eq!(db.queue().len(), 0);
    assert_eq!(sends.len(), 3);
    let mut served: Vec<String> = sends.iter().map(|t| t.subscriber_email.clone()).collect();
    served.sort();
    assert_eq!(served, subscribers());
    assert!(sends.iter().all(|t| t.newsletter_issue_id == 1));
}

#[test]
fn a_key_longer_than_the_limit_is_rejected_before_any_record_is_created() {
    let mut db = Database::new();
    let key = "k".repeat(51);
    let refused = publish(&mut db, &key, 1, &subscribers()).unwrap_err();
    assert_eq!(refused, PublishError::InvalidKey(KeyError::TooLong));
    assert_eq!(db.idempotency().len(), 0);
    assert_eq!(db.issue_count(), 0);
    assert_eq!(db.queue().len(), 0);
}

#[test]
fn a_key_of_the_longest_length_is_accepted() {
    let mut db = Database::new();
    let key = "k".repeat(50);
    assert!(publish(&mut db, &key, 1, &subscribers()).is_ok());
    assert_eq!(db.idempotency().len(), 1);
    assert_eq!(IdempotencyKey::parse("é".repeat(50)).unwrap().as_str(), "é".repeat(50));
    assert_eq!(IdempotencyKey::parse("é".repeat(51)).unwrap_err(), KeyError::TooLong);
}

#[test]
fn an_empty_key_is_rejected() {
    let mut db = Database::new();
    let refused = publish(&mut db, "", 1, &subscribers()).unwrap_err();
    assert_eq!(refused, PublishError::InvalidKey(KeyError::Empty));
    assert_eq!(db.idempotency().len(), 0);
}

#[test]
fn a_blank_field_is_rejected_before_any_record_is_created() {
    let mut db = Database::new();
    let recipients = subscribers();
    let blank_title = publish_newsletter_as(
        &mut db, 7, "abc123".to_string(), "          ".to_string(), "H".to_string(),
        "X".to_string(), 1, &recipients, 0,
    );
    assert_eq!(blank_title.unwrap_err(), PublishError::InvalidNewsletter(NewsletterError::EmptyTitle));
    let blank_html = publish_newsletter_as(
        &mut db, 7, "abc123".to_string(), "T".to_string(), "      ".to_string(),
        "X".to_string(), 1, &recipients, 0,
    );
    assert_eq!(
        blank_html.unwrap_err(),
        PublishError::InvalidNewsletter(NewsletterError::EmptyHtmlContent)
    );
    let blank_text = publish_newsletter_as(
        &mut db, 7, "abc123".to_string(), "T".to_string(), "H".to_string(),
        "".to_string(), 1, &recipients, 0,
    );
    assert_eq!(
        blank_text.unwrap_err(),
        PublishError::InvalidNewsletter(NewsletterError::EmptyTextContent)
    );
    assert_eq!(db.idempotency().len(), 0);
    assert_eq!(NewsletterError::EmptyTitle.notice(), "Title cannot be empty.");
    assert_eq!(NewsletterError::EmptyHtmlContent.notice(), "Html content cannot be empty.");
    assert_eq!(NewsletterError::EmptyTextContent.notice(), "Plain text content cannot be empty.");
}

#[test]
fn the_same_key_of_another_caller_is_another_command() {
    let mut db = Database::new();
    let recipients = subscribers();
    publish(&mut db, "abc123", 1, &recipients).unwrap();
    let other = publish_newsletter_as(
        &mut db, 8, "abc123".to_string(), "T".to_string(), "H".to_string(), "X".to_string(), 2,
        &recipients, 0,
    );
    assert!(other.is_ok());
    assert_eq!(db.issue_count(), 2);
    assert_eq!(db.queue().len(), 6);
    assert_eq!(db.idempotency().len(), 2);
}

#[test]
fn a_duplicate_that_arrives_in_flight_is_refused_and_changes_nothing() {
    let mut db = Database::new();
    let key = IdempotencyKey::parse("abc123".to_string()).unwrap();
    let first = try_processing(7, &key, &mut db, 10).unwrap();
    let transaction = match first {
        NextAction::StartProcessing(transaction) => transaction,
        NextAction::ReturnSavedResponse(_) => panic!("the command is new"),
    };
    let second = try_processing(7, &key, &mut db, 11);
    assert_eq!(second.unwrap_err(), IdempotencyError::ConflictInProgress);
    assert_eq!(get_saved_response(&db, 7, &key).unwrap_err(), IdempotencyError::ConflictInProgress);
    assert_eq!(db.idempotency().len(), 1);

    let response = SavedHttpResponse::see_other("/admin/newsletters").unwrap();
    let saved = save_response(7, &key, response, transaction, &mut db).unwrap();
    assert_eq!(saved.status_code(), 303);
    let third = try_processing(7, &key, &mut db, 12).unwrap();
    match third {
        NextAction::ReturnSavedResponse(replayed) => assert!(same_bytes(&saved, &replayed)),
        NextAction::StartProcessing(_) => panic!("the command has finished"),
    }
    let looked_up = get_saved_response(&db, 7, &key).unwrap().unwrap();
    assert!(same_bytes(&saved, &looked_up));
}

#[test]
fn a_command_that_was_never_begun_has_no_saved_response() {
    let db = Database::new();
    let key = IdempotencyKey::parse("abc123".to_string()).unwrap();
    assert!(get_saved_response(&db, 7, &key).unwrap().is_none());
}

#[test]
fn a_taken_issue_identifier_fails_the_command_and_leaves_no_trace() {
    let mut db = Database::new();
    publish(&mut db, "first", 1, &subscribers()).unwrap();
    let failed = publish(&mut db, "second", 1, &subscribers()).unwrap_err();
    assert_eq!(
        failed,
        PublishError::Save(SaveError::Commit(CommitError::Persistence(
            PersistenceError::DuplicateIssue
        )))
    );
    assert_eq!(db.idempotency().len(), 1);
    assert_eq!(db.issue_count(), 1);
    assert_eq!(db.queue().len(), 3);
    // The command counts as never begun: it can be submitted again.
    assert!(publish(&mut db, "second", 2, &subscribers()).is_ok());
    assert_eq!(db.issue_count(), 2);
}

#[test]
fn a_recipient_listed_twice_fails_the_command_and_leaves_no_trace() {
    let mut db = Database::new();
    let recipients = vec!["ann@example.com".to_string(), "ann@example.com".to_string()];
    let failed = publish(&mut db, "abc123", 1, &recipients).unwrap_err();
    assert_eq!(
        failed,
        PublishError::Save(SaveError::Commit(CommitError::Persistence(
            PersistenceError::DuplicateTask
        )))
    );
    assert_eq!(db.idempotency().len(), 0);
    assert_eq!(db.issue_count(), 0);
    assert_eq!(db.queue().len(), 0);
}

#[test]
fn subscribers_confirmed_after_the_command_are_not_served() {
    let mut db = Database::new();
    publish(&mut db, "abc123", 1, &subscribers()).unwrap();
    let mut later = subscribers();
    later.push("dee@example.com".to_string());
    publish(&mut db, "abc123", 2, &later).unwrap();
    assert_eq!(db.queue().len(), 3);
    assert!(!db.queue().contains(1, "dee@example.com"));
    assert!(db.queue().contains(1, "ann@example.com"));
}

#[test]
fn a_drawn_identifier_names_the_issue_of_every_task() {
    let mut db = Database::new();
    let response = publish_newsletter(
        &mut db, 7, "abc123".to_string(), "T".to_string(), "H".to_string(), "X".to_string(),
        &subscribers(), 0,
    )
    .unwrap();
    assert_eq!(response.status_code(), 303);
    assert_eq!(db.issue_count(), 1);
    let (first, _) = db.queue().row(0).unwrap();
    let issue = db.get_issue(first.newsletter_issue_id).unwrap();
    assert_eq!(issue.title, "T");
    assert_eq!(issue.html_content, "H");
    assert_eq!(issue.text_content, "X");
    for index in 0..3 {
        let (task, claimed_by) = db.queue().row(index).unwrap();
        assert_eq!(task.newsletter_issue_id, first.newsletter_issue_id);
        assert_eq!(claimed_by, None);
    }
}

#[test]
fn every_failure_of_a_publication_has_its_status() {
    assert_eq!(PublishError::InvalidKey(KeyError::Empty).status_code(), 400);
    assert_eq!(PublishError::InvalidKey(KeyError::TooLong).status_code(), 400);
    assert_eq!(PublishError::InvalidNewsletter(NewsletterError::EmptyTitle).status_code(), 303);
    assert_eq!(PublishError::Idempotency(IdempotencyError::ConflictInProgress).status_code(), 409);
    assert_eq!(PublishError::Idempotency(IdempotencyError::MissingRecord).status_code(), 500);
    assert_eq!(PublishError::Save(SaveError::TransactionMismatch).status_code(), 500);
    assert_eq!(
        PublishError::Save(SaveError::Commit(CommitError::Persistence(
            PersistenceError::DuplicateIssue
        )))
        .status_code(),
        500
    );
    assert_eq!(PublishError::Save(SaveError::Commit(CommitError::NotInFlight)).status_code(), 500);
}

#[test]
fn the_key_of_a_command_is_judged_before_its_content() {
    let both = validate_command(String::new(), " ".to_string(), "H".to_string(), "X".to_string());
    assert_eq!(both.err().unwrap(), PublishError::InvalidKey(KeyError::Empty));
    let (key, newsletter) =
        validate_command("abc123".to_string(), "T".to_string(), "H".to_string(), "X".to_string())
            .ok()
            .unwrap();
    assert_eq!(key.as_str(), "abc123");
    assert_eq!(newsletter.title, "T");
    assert_eq!(newsletter.html_content, "H");
    assert_eq!(newsletter.text_content, "X");
}

#[test]
fn a_newsletter_without_subscribers_is_published_with_no_task() {
    let mut db = Database::new();
    let response = publish(&mut db, "abc123", 1, &vec![]).unwrap();
    assert_eq!(response.status_code(), 303);
    assert_eq!(db.issue_count(), 1);
    assert_eq!(db.queue().len(), 0);
    let mut sends: Vec<DeliveryTask> = Vec::new();
    assert_eq!(try_execute_task(&mut db, 1, true, &mut sends), ExecutionOutcome::EmptyQueue);
    assert!(sends.is_empty());
}

#[test]
fn the_store_commits_a_transaction_with_its_response_in_one_step() {
    let mut db = Database::new();
    let key = IdempotencyKey::parse("abc123".to_string()).unwrap();
    assert_eq!(db.insert_in_flight(7, &key, 3), 1);
    assert_eq!(db.insert_in_flight(7, &key, 4), 0);
    assert!(matches!(
        db.record_status(7, &key),
        newsletter::idempotency::persistence::RecordStatus::InFlight
    ));
    let newsletter =
        newsletter::newsletter::Newsletter::try_from("T".to_string(), "H".to_string(), "X".to_string())
            .unwrap();
    let mut transaction = newsletter::database::Transaction::begin(7, &key);
    transaction.insert_newsletter_issue(&newsletter, 5, 3);
    transaction.enqueue_delivery_task(5, &subscribers());
    let response = SavedHttpResponse::see_other("/admin/newsletters").unwrap();
    assert!(db.commit(response.to_stored(), transaction).is_ok());
    assert_eq!(db.issue_count(), 1);
    assert_eq!(db.queue().len(), 3);
    assert!(matches!(
        db.record_status(7, &key),
        newsletter::idempotency::persistence::RecordStatus::Completed(_)
    ));
    // A finished record is not taken back.
    db.rollback(7, &key);
    assert_eq!(db.idempotency().len(), 1);

    let task = db.claim_task(1).unwrap();
    assert_eq!(task.subscriber_email, "ann@example.com");
    assert!(!db.settle_task(2, &task, newsletter::issue_delivery_queue::Disposition::Delete));
    assert!(db.settle_task(1, &task, newsletter::issue_delivery_queue::Disposition::Delete));
    assert_eq!(db.queue().len(), 2);
    assert_eq!(db.get_issue(5).unwrap().published_at, 3);
    assert!(db.get_issue(6).is_none());
}
