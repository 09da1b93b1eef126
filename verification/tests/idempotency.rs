use newsletter::database::{CommitError, Database, PersistenceError, Transaction};
use newsletter::idempotency::guard::{
    is_new_command, process_once, resolve_duplicate, save_response, try_processing, GuardError,
    IdempotencyError, NextAction, SaveError,
};
use newsletter::idempotency::key::{IdempotencyKey, KeyError};
use newsletter::idempotency::persistence::{IdempotencyStore, RecordStatus};
use newsletter::idempotency::response::{
    copy_bytes, copy_headers, HeaderPair, ReplayError, SavedHttpResponse, StoredResponse,
};
use newsletter::newsletter::Newsletter;

fn key(text: &str) -> IdempotencyKey {
    IdempotencyKey::parse(text.to_string()).unwrap()
}

fn pair(name: &str, value: &[u8]) -> HeaderPair {
    HeaderPair { name: name.to_string(), value: value.to_vec() }
}

#[test]
fn a_key_has_from_one_to_fifty_characters() {
    assert_eq!(IdempotencyKey::parse(String::new()).unwrap_err(), KeyError::Empty);
    assert_eq!(IdempotencyKey::parse("a".to_string()).unwrap().as_str(), "a");
    assert_eq!(IdempotencyKey::parse("a".repeat(50)).unwrap().as_str(), "a".repeat(50));
    assert_eq!(IdempotencyKey::parse("a".repeat(51)).unwrap_err(), KeyError::TooLong);
    assert_eq!(key("abc123").duplicate().as_str(), "abc123");
}

#[test]
fn a_response_is_rebuilt_from_its_stored_columns_byte_for_byte() {
    let headers = vec![pair("location", b"/admin/newsletters"), pair("x-note", b"caf\xe9\t!")];
    let response = SavedHttpResponse::new(303, headers, b"body".to_vec()).unwrap();
    let stored = response.to_stored();
    assert_eq!(stored.status_code, 303);
    assert_eq!(stored.headers.len(), 2);
    assert_eq!(stored.body, b"body".to_vec());
    let replayed = SavedHttpResponse::replay(stored).unwrap();
    assert_eq!(replayed.status_code(), 303);
    assert_eq!(replayed.headers()[0].name, "location");
    assert_eq!(replayed.headers()[0].value, b"/admin/newsletters".to_vec());
    assert_eq!(replayed.headers()[1].name, "x-note");
    assert_eq!(replayed.headers()[1].value, b"caf\xe9\t!".to_vec());
    assert_eq!(replayed.body(), &b"body".to_vec());
    let copy = replayed.duplicate();
    assert_eq!(copy.status_code(), 303);
    assert_eq!(copy.headers().len(), 2);
    assert_eq!(copy_bytes(&b"abc".to_vec()), b"abc".to_vec());
    assert_eq!(copy_headers(&vec![pair("a", b"b")])[0].name, "a");
}

#[test]
fn a_damaged_status_code_cannot_be_replayed() {
    for code in [-1i16, 0, 99, 1000, i16::MAX] {
        let stored = StoredResponse { status_code: code, headers: vec![], body: vec![] };
        assert_eq!(SavedHttpResponse::replay(stored).unwrap_err(), ReplayError::InvalidStatusCode);
    }
    for code in [100i16, 200, 303, 999] {
        let stored = StoredResponse { status_code: code, headers: vec![], body: vec![] };
        assert_eq!(SavedHttpResponse::replay(stored).unwrap().status_code(), code as u16);
    }
    assert_eq!(SavedHttpResponse::new(99, vec![], vec![]).unwrap_err(), ReplayError::InvalidStatusCode);
    assert_eq!(
        SavedHttpResponse::new(1000, vec![], vec![]).unwrap_err(),
        ReplayError::InvalidStatusCode
    );
}

#[test]
fn a_damaged_header_cannot_be_replayed() {
    let bad_names = ["", "with space", "colon:", "caf\u{e9}", "(paren)", "a/b", "a,b", "{x}"];
    for name in bad_names {
        let refused = SavedHttpResponse::new(200, vec![pair(name, b"v")], vec![]);
        assert_eq!(refused.unwrap_err(), ReplayError::InvalidHeaderName);
    }
    let good_names = ["location", "Content-Type", "x_y.z", "a!#$%&'*+-.^_`|~9", "\"quoted\""];
    for name in good_names {
        assert!(SavedHttpResponse::new(200, vec![pair(name, b"v")], vec![]).is_ok());
    }
    assert!(SavedHttpResponse::new(200, vec![pair(&"a".repeat(65535), b"v")], vec![]).is_ok());
    assert_eq!(
        SavedHttpResponse::new(200, vec![pair(&"a".repeat(65536), b"v")], vec![]).unwrap_err(),
        ReplayError::InvalidHeaderName
    );
    for value in [&b"line\nbreak"[..], &b"\x7f"[..], &b"\x00"[..], &b"\x1f"[..]] {
        let refused = SavedHttpResponse::new(200, vec![pair("x", value)], vec![]);
        assert_eq!(refused.unwrap_err(), ReplayError::InvalidHeaderValue);
    }
    for value in [&b""[..], &b" \t~"[..], &b"\x80\xff"[..]] {
        assert!(SavedHttpResponse::new(200, vec![pair("x", value)], vec![]).is_ok());
    }
    // The first fault is the one that is reported, the name before the value.
    let both = SavedHttpResponse::new(200, vec![pair("ok", b"\n"), pair("not ok", b"v")], vec![]);
    assert_eq!(both.unwrap_err(), ReplayError::InvalidHeaderValue);
    let same = SavedHttpResponse::new(200, vec![pair("not ok", b"\n")], vec![]);
    assert_eq!(same.unwrap_err(), ReplayError::InvalidHeaderName);
    let status_first = SavedHttpResponse::new(99, vec![pair("not ok", b"\n")], vec![]);
    assert_eq!(status_first.unwrap_err(), ReplayError::InvalidStatusCode);
}

#[test]
fn a_redirect_has_status_303_and_one_location_header() {
    let response = SavedHttpResponse::see_other("/login").unwrap();
    assert_eq!(response.status_code(), 303);
    assert_eq!(response.headers().len(), 1);
    assert_eq!(response.headers()[0].name, "location");
    assert_eq!(response.headers()[0].value, b"/login".to_vec());
    assert!(response.body().is_empty());
    assert_eq!(
        SavedHttpResponse::see_other("/one\n/two").unwrap_err(),
        ReplayError::InvalidHeaderValue
    );
}

#[test]
fn the_table_refuses_a_second_record_under_one_caller_and_key() {
    let mut store = IdempotencyStore::new();
    assert_eq!(store.len(), 0);
    assert!(matches!(store.status(7, &key("abc123")), RecordStatus::Absent));
    assert_eq!(store.insert_in_flight(7, &key("abc123"), 10), 1);
    assert_eq!(store.insert_in_flight(7, &key("abc123"), 11), 0);
    assert_eq!(store.insert_in_flight(8, &key("abc123"), 12), 1);
    assert_eq!(store.insert_in_flight(7, &key("abc124"), 13), 1);
    assert_eq!(store.len(), 3);
    assert!(matches!(store.status(7, &key("abc123")), RecordStatus::InFlight));

    let response = SavedHttpResponse::see_other("/admin/newsletters").unwrap();
    assert_eq!(store.set_response(9, &key("abc123"), response.to_stored()), 0);
    assert_eq!(store.set_response(7, &key("abc123"), response.to_stored()), 1);
    match store.status(7, &key("abc123")) {
        RecordStatus::Completed(stored) => {
            assert_eq!(stored.status_code, 303);
            assert_eq!(stored.headers[0].value, b"/admin/newsletters".to_vec());
        }
        _ => panic!("the response was written"),
    }
    assert!(matches!(store.status(8, &key("abc123")), RecordStatus::InFlight));
    store.remove(8, &key("abc123"));
    store.remove(8, &key("never"));
    assert_eq!(store.len(), 2);
    assert!(matches!(store.status(8, &key("abc123")), RecordStatus::Absent));
}

#[test]
fn a_refused_insertion_is_resolved_from_the_record() {
    assert!(is_new_command(1));
    assert!(!is_new_command(0));
    assert_eq!(resolve_duplicate(RecordStatus::Absent).unwrap_err(), IdempotencyError::MissingRecord);
    assert_eq!(
        resolve_duplicate(RecordStatus::InFlight).unwrap_err(),
        IdempotencyError::ConflictInProgress
    );
    let damaged = StoredResponse { status_code: 200, headers: vec![pair("a b", b"v")], body: vec![] };
    assert_eq!(
        resolve_duplicate(RecordStatus::Completed(damaged)).unwrap_err(),
        IdempotencyError::MalformedResponse(ReplayError::InvalidHeaderName)
    );
    let intact = StoredResponse { status_code: 200, headers: vec![pair("a", b"v")], body: b"ok".to_vec() };
    let response = resolve_duplicate(RecordStatus::Completed(intact)).unwrap();
    assert_eq!(response.status_code(), 200);
    assert_eq!(response.body(), &b"ok".to_vec());
}

#[test]
fn saving_under_another_key_than_the_transactions_takes_the_command_back() {
    let mut db = Database::new();
    let transaction = match try_processing(7, &key("abc123"), &mut db, 0).unwrap() {
        NextAction::StartProcessing(transaction) => transaction,
        NextAction::ReturnSavedResponse(_) => panic!("the command is new"),
    };
    assert_eq!(transaction.user_id(), 7);
    assert_eq!(transaction.idempotency_key().as_str(), "abc123");
    let response = SavedHttpResponse::see_other("/admin/newsletters").unwrap();
    let refused = save_response(7, &key("other"), response, transaction, &mut db);
    assert_eq!(refused.unwrap_err(), SaveError::TransactionMismatch);
    assert_eq!(db.idempotency().len(), 0);
}

#[test]
fn a_response_is_saved_once() {
    let mut db = Database::new();
    let first = match try_processing(7, &key("abc123"), &mut db, 0).unwrap() {
        NextAction::StartProcessing(transaction) => transaction,
        NextAction::ReturnSavedResponse(_) => panic!("the command is new"),
    };
    let response = SavedHttpResponse::see_other("/admin/newsletters").unwrap();
    assert!(save_response(7, &key("abc123"), response, first, &mut db).is_ok());
    let late = Transaction::begin(7, &key("abc123"));
    let other = SavedHttpResponse::see_other("/elsewhere").unwrap();
    let refused = save_response(7, &key("abc123"), other, late, &mut db);
    assert_eq!(refused.unwrap_err(), SaveError::Commit(CommitError::NotInFlight));
    match try_processing(7, &key("abc123"), &mut db, 1).unwrap() {
        NextAction::ReturnSavedResponse(saved) => {
            assert_eq!(saved.headers()[0].value, b"/admin/newsletters".to_vec())
        }
        NextAction::StartProcessing(_) => panic!("the command has finished"),
    }
}

#[test]
fn the_writes_of_a_transaction_reach_the_store_together_or_not_at_all() {
    let mut db = Database::new();
    let newsletter = Newsletter::try_from("T".to_string(), "H".to_string(), "X".to_string()).unwrap();
    let mut transaction = match try_processing(7, &key("abc123"), &mut db, 0).unwrap() {
        NextAction::StartProcessing(transaction) => transaction,
        NextAction::ReturnSavedResponse(_) => panic!("the command is new"),
    };
    assert_eq!(transaction.insert_newsletter_issue(&newsletter, 1, 5), 1);
    transaction.enqueue_delivery_task(1, &vec!["ann@example.com".to_string()]);
    // A task for an issue that nobody stored breaks the store's constraints.
    transaction.enqueue_delivery_task(2, &vec!["bob@example.com".to_string()]);
    // Nothing has reached the store yet.
    assert_eq!(db.issue_count(), 0);
    assert_eq!(db.queue().len(), 0);
    let response = SavedHttpResponse::see_other("/admin/newsletters").unwrap();
    let refused = save_response(7, &key("abc123"), response, transaction, &mut db);
    assert_eq!(
        refused.unwrap_err(),
        SaveError::Commit(CommitError::Persistence(PersistenceError::UnknownIssue))
    );
    assert_eq!(db.issue_count(), 0);
    assert_eq!(db.queue().len(), 0);
    assert_eq!(db.idempotency().len(), 0);
    assert!(db.get_issue(1).is_none());
}

#[test]
fn an_unfinished_command_can_be_taken_back() {
    let mut db = Database::new();
    assert!(try_processing(7, &key("abc123"), &mut db, 0).is_ok());
    db.rollback(7, &key("abc123"));
    assert_eq!(db.idempotency().len(), 0);
    assert!(matches!(
        try_processing(7, &key("abc123"), &mut db, 1).unwrap(),
        NextAction::StartProcessing(_)
    ));
}

#[test]
fn a_record_with_an_empty_response_column_is_in_flight() {
    assert!(matches!(RecordStatus::of_columns(None, None, None), RecordStatus::InFlight));
    assert!(matches!(
        RecordStatus::of_columns(Some(200), None, Some(vec![])),
        RecordStatus::InFlight
    ));
    assert!(matches!(
        RecordStatus::of_columns(Some(200), Some(vec![]), None),
        RecordStatus::InFlight
    ));
    match RecordStatus::of_columns(Some(303), Some(vec![pair("location", b"/x")]), Some(b"b".to_vec()))
    {
        RecordStatus::Completed(stored) => {
            assert_eq!(stored.status_code, 303);
            assert_eq!(stored.headers[0].name, "location");
            assert_eq!(stored.body, b"b".to_vec());
        }
        _ => panic!("every column is filled"),
    }
}

#[test]
fn a_refused_key_says_why() {
    assert_eq!(KeyError::Empty.message(), "The idempotency key cannot be empty");
    assert_eq!(
        KeyError::TooLong.message(),
        "The idempotency key must not be longer than 50 characters"
    );
    assert_eq!(IdempotencyError::ConflictInProgress.status_code(), 409);
    assert_eq!(IdempotencyError::MissingRecord.status_code(), 500);
    assert_eq!(
        IdempotencyError::MalformedResponse(ReplayError::InvalidStatusCode).status_code(),
        500
    );
}

#[test]
fn the_work_of_a_command_is_carried_out_once() {
    let mut db = Database::new();
    let calls = std::cell::Cell::new(0);
    let newsletter = Newsletter::try_from("T".to_string(), "H".to_string(), "X".to_string()).unwrap();
    let first = process_once(7, &key("abc123"), &mut db, 0, |mut transaction: Transaction| {
        calls.set(calls.get() + 1);
        transaction.insert_newsletter_issue(&newsletter, 1, 0);
        transaction.enqueue_delivery_task(1, &vec!["ann@example.com".to_string()]);
        Ok::<_, String>((transaction, SavedHttpResponse::see_other("/done").unwrap()))
    })
    .unwrap();
    assert_eq!(calls.get(), 1);
    assert_eq!(db.issue_count(), 1);
    assert_eq!(db.queue().len(), 1);

    let second = process_once(7, &key("abc123"), &mut db, 1, |transaction: Transaction| {
        calls.set(calls.get() + 1);
        Ok::<_, String>((transaction, SavedHttpResponse::see_other("/elsewhere").unwrap()))
    })
    .unwrap();
    assert_eq!(calls.get(), 1);
    assert_eq!(second.headers()[0].value, first.headers()[0].value);
    assert_eq!(second.headers()[0].value, b"/done".to_vec());
    assert_eq!(db.issue_count(), 1);
    assert_eq!(db.queue().len(), 1);
}

#[test]
fn work_that_fails_leaves_no_trace_and_may_be_tried_again() {
    let mut db = Database::new();
    let failed = process_once(7, &key("abc123"), &mut db, 0, |_transaction: Transaction| {
        Err::<(Transaction, SavedHttpResponse), String>("no luck".to_string())
    });
    match failed {
        Err(GuardError::Work(why)) => assert_eq!(why, "no luck"),
        _ => panic!("the work failed"),
    }
    assert_eq!(db.idempotency().len(), 0);
    assert_eq!(db.issue_count(), 0);
    let again = process_once(7, &key("abc123"), &mut db, 1, |transaction: Transaction| {
        Ok::<_, String>((transaction, SavedHttpResponse::see_other("/done").unwrap()))
    });
    assert!(again.is_ok());
    assert_eq!(db.idempotency().len(), 1);
}

#[test]
fn a_guarded_command_in_flight_refuses_its_duplicate() {
    let mut db = Database::new();
    assert!(try_processing(7, &key("abc123"), &mut db, 0).is_ok());
    let calls = std::cell::Cell::new(0);
    let duplicate = process_once(7, &key("abc123"), &mut db, 1, |transaction: Transaction| {
        calls.set(calls.get() + 1);
        Ok::<_, String>((transaction, SavedHttpResponse::see_other("/done").unwrap()))
    });
    assert!(matches!(
        duplicate,
        Err(GuardError::Idempotency(IdempotencyError::ConflictInProgress))
    ));
    assert_eq!(calls.get(), 0);
}
