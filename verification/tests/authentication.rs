use newsletter::authentication::middleware::{
    force_password_change_on_weak_password, reject_anonymous_users, Access, UserId,
};
use newsletter::authentication::password::{
    check_computed_hash, check_new_password, compute_password_hash, validate_credentials,
    verify_password_hash, AuthError, NewPasswordError, Password, PasswordError, StoredCredentials,
};

#[test]
fn authentication_password_less_then_12_character_should_failed() {
    let password = "Short pass";
    let parsed_passeord = Password::parse(password);
    assert!(parsed_passeord.is_err());
}

#[test]
fn authentication_password_more_then_128_character_should_failed() {
    let password = "password12".repeat(13);
    let parsed_passeord = Password::parse(&password);
    assert!(parsed_passeord.is_err());
}

#[test]
fn authentication_graphemes_password_() {
    let password = "ぁ😤😠😡🤬🤯😳🥵🥶😱".repeat(12);
    let parsed_passeord = Password::parse(&password);
    assert!(parsed_passeord.is_ok());
}

#[test]
fn authentication_password_with_a_low_entropy_score() {
    let password = "password12345";
    let parsed_passeord = Password::parse(password);
    assert!(parsed_passeord.is_err());
}

#[test]
fn password_password_less_then_12_character_should_failed() {
    let password = "Short pass";
    let parsed_passeord = Password::parse(password);
    assert!(parsed_passeord.is_err());
}

#[test]
fn password_password_more_then_128_character_should_failed() {
    let password = "password12".repeat(13);
    let parsed_passeord = Password::parse(&password);
    assert!(parsed_passeord.is_err());
}

#[test]
fn password_graphemes_password_() {
    let password = "ぁ😤😠😡🤬🤯😳🥵🥶😱".repeat(12);
    let parsed_passeord = Password::parse(&password);
    assert!(parsed_passeord.is_ok());
}

#[test]
fn password_password_with_a_low_entropy_score() {
    let password = "password12345";
    let parsed_passeord = Password::parse(password);
    assert!(parsed_passeord.is_err());
}

#[test]
fn the_length_of_a_password_is_judged_before_its_strength() {
    assert!(matches!(Password::parse("Short pass"), Err(PasswordError::PasswordTooShort)));
    assert!(matches!(Password::check_length("elevenchars"), Err(PasswordError::PasswordTooShort)));
    assert!(Password::check_length("twelve chars").is_ok());
    assert!(Password::check_length(&"a".repeat(127)).is_ok());
    assert!(matches!(
        Password::check_length(&"a".repeat(128)),
        Err(PasswordError::PasswordTooLong)
    ));
    assert!(matches!(
        Password::parse(&"password12".repeat(13)),
        Err(PasswordError::PasswordTooLong)
    ));
    assert_eq!(
        PasswordError::PasswordTooShort.message(),
        "Password should be at least 12 characters long."
    );
    assert_eq!(
        PasswordError::PasswordTooLong.message(),
        "Password should be at most 128 characters long."
    );
}

#[test]
fn the_length_of_a_password_is_measured_in_grapheme_clusters() {
    // Six clusters of two characters each: twelve characters, too short.
    assert!(matches!(
        Password::check_length(&"e\u{301}".repeat(6)),
        Err(PasswordError::PasswordTooShort)
    ));
    assert!(Password::check_length(&"e\u{301}".repeat(12)).is_ok());
}

#[test]
fn a_weak_password_is_refused_with_the_reason() {
    match Password::parse("password12345") {
        Err(PasswordError::PasswordLowScore(why)) => assert!(!why.is_empty()),
        _ => panic!("a common password must be refused for its score"),
    }
    let feedback = Password::password_feedback("password12345").unwrap();
    assert!(feedback.score < 3);
    assert!(feedback.info.is_some());
}

#[test]
fn a_strong_password_is_accepted_unchanged() {
    let text = "r0sebudmaelstrom11/20/91aaaa";
    let feedback = Password::password_feedback(text).unwrap();
    assert_eq!(feedback.score, 4);
    assert!(feedback.info.is_none());
    let password = Password::parse(text).unwrap();
    assert_eq!(password.inner_ref(), text);
}

#[test]
fn a_blank_candidate_cannot_be_estimated() {
    assert!(matches!(Password::password_feedback(""), Err(PasswordError::UnexpectedError(_))));
}

#[test]
fn feedback_is_made_of_a_score_and_a_warning() {
    let weak = Password::feedback_from(2, Some("Dates are often easy to guess.".to_string())).unwrap();
    assert_eq!(weak.score, 2);
    assert_eq!(weak.info.as_deref(), Some("Dates are often easy to guess."));
    let strong = Password::feedback_from(3, Some("ignored".to_string())).unwrap();
    assert_eq!(strong.score, 3);
    assert!(strong.info.is_none());
    match Password::feedback_from(0, None) {
        Err(PasswordError::UnexpectedError(why)) => {
            assert_eq!(why, "Failed to get a feedback reference")
        }
        _ => panic!("a weak password without a warning is an error"),
    }
}

#[test]
fn a_password_is_judged_by_its_estimate() {
    let text = "twelve chars";
    let accepted = Password::parse_with(text, Password::feedback_from(3, None)).unwrap();
    assert_eq!(accepted.inner_ref(), text);
    assert!(Password::parse_with(text, Password::feedback_from(4, None)).is_ok());
    match Password::parse_with(text, Password::feedback_from(2, Some("weak".to_string()))) {
        Err(PasswordError::PasswordLowScore(why)) => assert_eq!(why, "weak"),
        _ => panic!("a score of two is too low"),
    }
    assert!(matches!(
        Password::parse_with(text, Password::feedback_from(5, None)),
        Err(PasswordError::PasswordLowScore(_))
    ));
    assert!(matches!(
        Password::parse_with(text, Err(PasswordError::UnexpectedError("clock".to_string()))),
        Err(PasswordError::UnexpectedError(_))
    ));
    assert!(matches!(
        Password::parse_with("short", Password::feedback_from(4, None)),
        Err(PasswordError::PasswordTooShort)
    ));
}

#[test]
fn a_stored_hash_accepts_its_password_and_no_other() {
    let password = Password::parse("r0sebudmaelstrom11/20/91aaaa").unwrap();
    let hash = compute_password_hash(&password).unwrap();
    assert!(hash.starts_with("$argon2id$v=19$m=19456,t=2,p=1$"));
    assert!(verify_password_hash(&hash, "r0sebudmaelstrom11/20/91aaaa").is_ok());
    match verify_password_hash(&hash, "r0sebudmaelstrom11/20/91aaab") {
        Err(AuthError::InvalidCredentials(why)) => assert_eq!(why, "Invalid password."),
        _ => panic!("another password must be refused"),
    }
    match verify_password_hash("not a hash", "r0sebudmaelstrom11/20/91aaaa") {
        Err(AuthError::UnexpectedError(why)) => {
            assert_eq!(why, "Failed to parse hash in PHC string format.")
        }
        _ => panic!("a malformed hash is an unexpected error"),
    }
}

#[test]
fn two_hashes_of_one_password_differ_by_their_salt() {
    let password = Password::parse("r0sebudmaelstrom11/20/91aaaa").unwrap();
    let first = compute_password_hash(&password).unwrap();
    let second = compute_password_hash(&password).unwrap();
    assert_ne!(first, second);
    assert!(verify_password_hash(&second, password.inner_ref()).is_ok());
}

#[test]
fn credentials_are_valid_for_the_stored_user_only() {
    let password = Password::parse("r0sebudmaelstrom11/20/91aaaa").unwrap();
    let hash = compute_password_hash(&password).unwrap();
    let stored = || Some(StoredCredentials { user_id: 42, password_hash: hash.clone() });
    assert_eq!(validate_credentials(stored(), "r0sebudmaelstrom11/20/91aaaa").unwrap(), 42);
    let wrong = validate_credentials(stored(), "random-password").unwrap_err();
    assert!(matches!(wrong, AuthError::InvalidCredentials(_)));
    assert_eq!(wrong.message(), "Authentication failed.");
    let unknown = validate_credentials(None, "random-password").unwrap_err();
    assert!(matches!(unknown, AuthError::InvalidCredentials(_)));
    let broken = validate_credentials(
        Some(StoredCredentials { user_id: 42, password_hash: "broken".to_string() }),
        "random-password",
    )
    .unwrap_err();
    assert!(matches!(broken, AuthError::UnexpectedError(_)));
    assert_eq!(broken.message(), "Failed to parse hash in PHC string format.");
}

#[test]
fn a_new_password_must_equal_its_repetition_and_pass_the_policy() {
    let refused = check_new_password("r0sebudmaelstrom11/20/91aaaa", "r0sebudmaelstrom11/20/91aaab");
    match refused {
        Err(e) => {
            assert!(matches!(e, NewPasswordError::Mismatch));
            assert_eq!(e.notice(), "New password entries does not match.");
        }
        Ok(_) => panic!("the two entries differ"),
    }
    let short = check_new_password("short", "short");
    match short {
        Err(e) => assert_eq!(e.notice(), "Password should be at least 12 characters long."),
        Ok(_) => panic!("the password is too short"),
    }
    let accepted =
        check_new_password("r0sebudmaelstrom11/20/91aaaa", "r0sebudmaelstrom11/20/91aaaa").unwrap();
    assert_eq!(accepted.inner_ref(), "r0sebudmaelstrom11/20/91aaaa");
}

#[test]
fn user_must_be_logged_in_to_pass_the_guard() {
    assert_eq!(reject_anonymous_users(None), (Access::ToLogin, None));
    assert_eq!(reject_anonymous_users(Some(9)), (Access::Pass, Some(UserId(9))));
    assert_eq!(UserId(9).deref(), 9);
    assert_eq!(Access::ToLogin.location(), Some("/login"));
    assert_eq!(Access::ToLogin.reason(), Some("The user has not logged in"));
    assert_eq!(Access::Pass.location(), None);
    assert_eq!(Access::Pass.reason(), None);
}

#[test]
fn a_weak_password_must_be_changed_before_anything_else() {
    assert_eq!(
        force_password_change_on_weak_password("/admin/dashboard", Some(true)),
        Access::ToPasswordChange
    );
    assert_eq!(
        force_password_change_on_weak_password("/admin/newsletters", None),
        Access::ToLogin
    );
    assert_eq!(
        force_password_change_on_weak_password("/admin/newsletters", Some(false)),
        Access::Pass
    );
    for flag in [Some(true), Some(false), None] {
        assert_eq!(force_password_change_on_weak_password("/admin/password", flag), Access::Pass);
    }
    assert_eq!(Access::ToPasswordChange.location(), Some("/admin/password"));
    assert_eq!(
        Access::ToPasswordChange.reason(),
        Some("User password does not meet password policy - forcing password reset")
    );
}

#[test]
fn a_computed_hash_is_kept_only_where_it_accepts_its_password() {
    let password = Password::parse("r0sebudmaelstrom11/20/91aaaa").unwrap();
    let hash = compute_password_hash(&password).unwrap();
    assert_eq!(
        check_computed_hash("r0sebudmaelstrom11/20/91aaaa", Ok(hash.clone())),
        Ok(hash.clone())
    );
    assert_eq!(
        check_computed_hash("r0sebudmaelstrom11/20/91aaab", Ok(hash)),
        Err("Invalid password.".to_string())
    );
    assert_eq!(
        check_computed_hash("r0sebudmaelstrom11/20/91aaaa", Ok("not a hash".to_string())),
        Err("Failed to parse hash in PHC string format.".to_string())
    );
    assert_eq!(
        check_computed_hash("r0sebudmaelstrom11/20/91aaaa", Err("out of memory".to_string())),
        Err("out of memory".to_string())
    );
}
