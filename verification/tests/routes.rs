use newsletter::authentication::password::{AuthError, PasswordFeedback};
use newsletter::routes::login::{after_login, login_redirect, LoginError};
use newsletter::routes::newsletters::{
    basic_authentication, get_confirmed_subscribers, BasicAuthError, BodyData, Content,
    PublishNewsletterError,
};
use newsletter::routes::subscription_confirmation::{
    error_chain_fmt, subscriber_of_token, ConfirmError, Parameters,
};
use newsletter::routes::subscriptions::{
    confirmation_email, confirmation_link, confirmation_path, generate_subscriber_token,
    InsertDatabaseError, SubscribeError,
};
use newsletter::text::{blank, chars_of, contains_any_of, one_of, str_eq, string_between, string_of};

fn header(text: &str) -> Option<Vec<u8>> {
    Some(text.as_bytes().to_vec())
}

#[test]
fn basic_credentials_are_read_from_the_header() {
    // "admin:secret:with:colons"
    let credentials = basic_authentication(header("Basic YWRtaW46c2VjcmV0OndpdGg6Y29sb25z")).unwrap();
    assert_eq!(credentials.username, "admin");
    assert_eq!(credentials.password, "secret:with:colons");
    // ":" gives an empty name and an empty password.
    let empty = basic_authentication(header("Basic Og==")).unwrap();
    assert_eq!(empty.username, "");
    assert_eq!(empty.password, "");
    // "jos\u{e9}:p\u{e4}ss"
    let accented = basic_authentication(header("Basic am9zw6k6cMOkc3M=")).unwrap();
    assert_eq!(accented.username, "jos\u{e9}");
    assert_eq!(accented.password, "p\u{e4}ss");
}

#[test]
fn unreadable_credentials_are_refused_for_the_first_fault() {
    assert_eq!(basic_authentication(None).err().unwrap(), BasicAuthError::MissingHeader);
    assert_eq!(
        basic_authentication(Some(b"Basic \xff".to_vec())).err().unwrap(),
        BasicAuthError::NotText
    );
    assert_eq!(
        basic_authentication(header("Bearer YWRtaW46c2VjcmV0")).err().unwrap(),
        BasicAuthError::NotBasic
    );
    assert_eq!(basic_authentication(header("Basic")).err().unwrap(), BasicAuthError::NotBasic);
    assert_eq!(basic_authentication(header("basic Og==")).err().unwrap(), BasicAuthError::NotBasic);
    assert_eq!(
        basic_authentication(header("Basic not base64!")).err().unwrap(),
        BasicAuthError::NotBase64
    );
    // The bytes ff fe, which are no UTF-8.
    assert_eq!(basic_authentication(header("Basic //4=")).err().unwrap(), BasicAuthError::NotUtf8);
    // "admin"
    assert_eq!(
        basic_authentication(header("Basic YWRtaW4=")).err().unwrap(),
        BasicAuthError::MissingPassword
    );
    // Nothing behind the scheme decodes to the empty text, which has no colon.
    assert_eq!(basic_authentication(header("Basic ")).err().unwrap(), BasicAuthError::MissingPassword);
    assert_eq!(BasicAuthError::MissingHeader.message(), "The 'Authorization' was missing.");
    assert_eq!(
        BasicAuthError::NotText.message(),
        "The 'Authorization' header value was not a valid UTF8 string."
    );
    assert_eq!(BasicAuthError::NotBasic.message(), "The authorization scheme was not 'baisc'.");
    assert_eq!(
        BasicAuthError::NotBase64.message(),
        "Failed to decode base64-decode 'basic' credentials."
    );
    assert_eq!(BasicAuthError::NotUtf8.message(), "The decoded credential string is not a valid UTF8.");
    assert_eq!(
        BasicAuthError::MissingPassword.message(),
        "A password must be provided in 'basic' auth."
    );
}

#[test]
fn a_failed_publication_is_answered_by_its_kind() {
    let unauthorized = PublishNewsletterError::AuthError("Unknown username.".to_string());
    let response = unauthorized.error_response();
    assert_eq!(response.status_code(), 401);
    assert_eq!(response.headers().len(), 1);
    assert_eq!(response.headers()[0].name, "www-authenticate");
    assert_eq!(response.headers()[0].value, br#"Basic realm="publish""#.to_vec());
    assert!(response.body().is_empty());
    assert_eq!(unauthorized.message(), "Authentication failed.");
    let unexpected = PublishNewsletterError::UnexpectedError("the store is down".to_string());
    let response = unexpected.error_response();
    assert_eq!(response.status_code(), 500);
    assert!(response.headers().is_empty());
    assert_eq!(unexpected.message(), "the store is down");
}

#[test]
fn confirmed_subscribers_with_a_malformed_address_are_told_apart() {
    let rows = get_confirmed_subscribers(vec![
        "ann@example.com".to_string(),
        "definitely-not-an-email".to_string(),
        "bob@example.com".to_string(),
    ]);
    assert_eq!(rows.len(), 3);
    assert_eq!(rows[0].as_ref().unwrap().email.as_ref(), "ann@example.com");
    assert_eq!(
        rows[1].as_ref().unwrap_err(),
        "definitely-not-an-email is not a valid subscriber email."
    );
    assert_eq!(rows[2].as_ref().unwrap().email.as_ref(), "bob@example.com");
    assert!(get_confirmed_subscribers(vec![]).is_empty());
}

#[test]
fn the_body_of_the_api_becomes_a_newsletter_field_for_field() {
    let body = BodyData {
        title: "Newsletter Title".to_string(),
        content: Content {
            html: "<p>Newsletter body as HTML</P>".to_string(),
            text: "Newsletter body as plain text".to_string(),
        },
    };
    let newsletter = body.into_newsletter();
    assert_eq!(newsletter.title, "Newsletter Title");
    assert_eq!(newsletter.html_content, "<p>Newsletter body as HTML</P>");
    assert_eq!(newsletter.text_content, "Newsletter body as plain text");
}

#[test]
fn an_error_is_written_out_with_its_chain_of_causes() {
    assert_eq!(error_chain_fmt("Failed to insert", &vec![]), "Failed to insert\n\n");
    let text = error_chain_fmt(
        "Failed to store the confirmation token for a new subscriber",
        &vec![
            "A database error was encountered while trying to store a subscription token.".to_string(),
            "connection refused".to_string(),
        ],
    );
    assert_eq!(
        text,
        "Failed to store the confirmation token for a new subscriber\n\n\
         Caused by:\n\tA database error was encountered while trying to store a subscription token.\n\
         Caused by:\n\tconnection refused\n"
    );
}

#[test]
fn a_failed_subscription_is_answered_by_its_kind() {
    let invalid = SubscribeError::from(" is not a valid subscriber name.".to_string());
    assert_eq!(invalid.status_code(), 400);
    assert_eq!(invalid.message(), " is not a valid subscriber name.");
    let unexpected = SubscribeError::UnexpectedError("Failed to send a confirmation email.".to_string());
    assert_eq!(unexpected.status_code(), 500);
    assert_eq!(unexpected.message(), "Failed to send a confirmation email.");
    assert_eq!(
        InsertDatabaseError::StoreTokenError.message(),
        "A database error was encountered while trying to store a subscription token."
    );
    assert_eq!(
        InsertDatabaseError::InsertSubscriberError.message(),
        "A database error was encountered while trying to insert a new subscriber."
    );
}

#[test]
fn a_failed_confirmation_is_answered_by_its_kind() {
    let unauthorized = ConfirmError::Unauthorized("no such token".to_string());
    assert_eq!(unauthorized.status_code(), 401);
    assert_eq!(unauthorized.message(), "no such token");
    let unexpected = ConfirmError::UnexpectedError("Failed to update subscriber status.".to_string());
    assert_eq!(unexpected.status_code(), 500);
    assert_eq!(unexpected.message(), "Failed to update subscriber status.");
}

#[test]
fn a_subscription_token_is_25_letters_and_digits() {
    let first = generate_subscriber_token();
    let second = generate_subscriber_token();
    for token in [&first, &second] {
        assert_eq!(token.chars().count(), 25);
        assert!(token.chars().all(|c| c.is_ascii_alphanumeric()));
    }
    assert_ne!(first, second);
}

#[test]
fn the_confirmation_email_carries_the_link_with_the_token() {
    assert_eq!(confirmation_path("abc"), "/subscriptions/confirm?subscription_token=abc");
    let link = confirmation_link("http://127.0.0.1:8000", "abc").unwrap();
    assert_eq!(link, "http://127.0.0.1:8000/subscriptions/confirm?subscription_token=abc");
    let replaced = confirmation_link("http://example.com/deep/page", "t0k3n").unwrap();
    assert_eq!(replaced, "http://example.com/subscriptions/confirm?subscription_token=t0k3n");
    assert!(confirmation_link("not an address", "abc").is_none());
    let email = confirmation_email(&link);
    assert_eq!(email.subject, "Welcome!");
    assert_eq!(
        email.html_body,
        "Welcome to our newsletter!<br /> Click <a href=\"http://127.0.0.1:8000/subscriptions/confirm?subscription_token=abc\">here</a> to confrim your subscription."
    );
    assert_eq!(
        email.text_body,
        "Welcome to our newsletter!\nPlease visit http://127.0.0.1:8000/subscriptions/confirm?subscription_token=abc to confrim your subscription."
    );
}

#[test]
fn a_failed_login_shows_no_more_than_its_kind() {
    let wrong = LoginError::from_auth(AuthError::InvalidCredentials("Unknown username.".to_string()));
    assert!(matches!(&wrong, LoginError::AuthError(why) if why == "Unknown username."));
    assert_eq!(wrong.message(), "Authentication failed");
    let broken = LoginError::from_auth(AuthError::UnexpectedError("no connection".to_string()));
    assert!(matches!(&broken, LoginError::UnexpectedError(why) if why == "no connection"));
    assert_eq!(broken.message(), "Something went wrong");
    assert_eq!(login_redirect(), "/login");
}

#[test]
fn a_login_with_a_weak_password_leads_to_the_password_page() {
    for score in 0..3u8 {
        let outcome = after_login(&PasswordFeedback { score, info: Some("weak".to_string()) });
        assert!(outcome.reset_needed);
        assert_eq!(outcome.location(), "/admin/password");
    }
    for score in 3..=4u8 {
        let outcome = after_login(&PasswordFeedback { score, info: None });
        assert!(!outcome.reset_needed);
        assert_eq!(outcome.location(), "/admin/dashboard");
    }
}

#[test]
fn text_is_judged_character_by_character() {
    assert!(blank(""));
    assert!(blank(" \t\n\u{a0}\u{3000}"));
    assert!(!blank("  x "));
    assert!(!blank("\u{200b}"));
    assert_eq!(chars_of("a\u{e9}\u{1f600}"), vec!['a', '\u{e9}', '\u{1f600}']);
    assert_eq!(string_of(&['a', '\u{e9}', '\u{1f600}']), "a\u{e9}\u{1f600}");
    assert_eq!(string_between(&vec!['a', 'b', 'c', 'd'], 1, 3), "bc");
    assert_eq!(string_between(&vec!['a', 'b'], 2, 2), "");
    assert!(str_eq("abc", "abc"));
    assert!(!str_eq("abc", "abd"));
    assert!(one_of('b', &['a', 'b']));
    assert!(!one_of('c', &['a', 'b']));
    assert!(contains_any_of("John/", &['/', '<']));
    assert!(!contains_any_of("John", &['/', '<']));
    assert!(!contains_any_of("", &['/']));
}

#[test]
fn confirmation_without_a_known_token_is_refused() {
    let parameters = Parameters { subscription_token: "abc".to_string() };
    assert_eq!(subscriber_of_token(Some(12), &parameters).ok(), Some(12));
    let refused = subscriber_of_token(None, &parameters).err().unwrap();
    assert_eq!(refused.status_code(), 401);
    assert_eq!(refused.message(), "There is no subscriber for the token abc");
}
