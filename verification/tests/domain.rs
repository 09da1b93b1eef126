use newsletter::domain::{NewSubscriber, SubscriberEmail, SubscriberName};

#[test]
fn a_256_graphmem_long_name_is_valid() {
    let name = "火".repeat(256);
    assert!(SubscriberName::parse(name).is_ok());
}

#[test]
fn a_name_longer_than_256_graphmem_is_rejected() {
    let name = "体".repeat(257);
    assert!(SubscriberName::parse(name).is_err());
}

#[test]
fn whitespace_only_names_are_rejected() {
    let name = " ".to_string();
    assert!(SubscriberName::parse(name).is_err());
}

#[test]
fn empty_name_is_rejected() {
    let name = "".to_string();
    assert!(SubscriberName::parse(name).is_err());
}

#[test]
fn names_containing_forbidden_characters_are_rejected() {
    for name in &[
        '\\', '/', '<', '>', '{', '}', '"', '(', ')', '\'', ';', ':', '|',
    ] {
        let name = name.to_string();
        assert!(SubscriberName::parse(name).is_err());
    }
}

#[test]
fn a_valid_name_is_parsed_successfully() {
    let name = "John Marie Schmoe".to_string();
    assert!(SubscriberName::parse(name).is_ok());
}

#[test]
fn empty_email_is_rejected() {
    let email = "".to_string();
    assert!(SubscriberEmail::parse(email).is_err());
}

#[test]
fn email_missing_at_symbol_is_rejected() {
    let email = "John73_rdomain.com".to_string();
    assert!(SubscriberEmail::parse(email).is_err());
}

#[test]
fn email_missing_local_part_is_rejected() {
    let email = "@domain.com".to_string();
    assert!(SubscriberEmail::parse(email).is_err());
}

#[test]
fn email_missing_domain_is_rejected() {
    let email = "John73_r@.com".to_string();
    assert!(SubscriberEmail::parse(email).is_err());
}

#[test]
fn a_valid_email_is_parsed_and_kept_as_it_is() {
    let email = SubscriberEmail::parse("john_r77@gmail.com".to_string()).unwrap();
    assert_eq!(email.as_ref(), "john_r77@gmail.com");
}

#[test]
fn a_refused_email_is_quoted_in_the_message() {
    let message = SubscriberEmail::parse("definitely-not-an-email".to_string()).unwrap_err();
    assert_eq!(message, "definitely-not-an-email is not a valid subscriber email.");
}

#[test]
fn a_refused_name_is_quoted_in_the_message() {
    let message = SubscriberName::parse("John/".to_string()).unwrap_err();
    assert_eq!(message, "John/ is not a valid subscriber name.");
}

#[test]
fn a_name_is_measured_in_grapheme_clusters_not_in_characters() {
    // One cluster of two characters, 256 times: 512 characters, 256 clusters.
    let name = "e\u{301}".repeat(256);
    assert_eq!(name.chars().count(), 512);
    let parsed = SubscriberName::parse(name.clone()).unwrap();
    assert_eq!(parsed.as_ref(), name);
    assert!(SubscriberName::parse("e\u{301}".repeat(257)).is_err());
}

#[test]
fn a_subscriber_needs_a_valid_name_and_a_valid_email() {
    let subscriber =
        NewSubscriber::try_from("John73".to_string(), "john_r77@gmail.com".to_string()).unwrap();
    assert_eq!(subscriber.name.as_ref(), "John73");
    assert_eq!(subscriber.email.as_ref(), "john_r77@gmail.com");
}

#[test]
fn the_name_of_a_subscriber_is_judged_before_the_email() {
    let message = NewSubscriber::try_from("{John}".to_string(), "nope".to_string()).unwrap_err();
    assert_eq!(message, "{John} is not a valid subscriber name.");
    let message = NewSubscriber::try_from("John".to_string(), "nope".to_string()).unwrap_err();
    assert_eq!(message, "nope is not a valid subscriber email.");
}
