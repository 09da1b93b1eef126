//! The password policy and the check of a password against its stored hash.

use crate::domain::subscriber_name::{count_graphemes, grapheme_count};
use vstd::prelude::*;
use vstd::string::*;

verus! {

/// The shortest password that is accepted, in grapheme clusters.
pub const MIN_LENGTH: usize = 12;

/// The length from which on a password is refused as too long.
pub const MAX_LENGTH: usize = 128;

/// The best strength score.
pub const MAX_SCORE: u8 = 4;

/// The lowest strength score that is accepted.
pub const ACCEPTABLE_SCORE: u8 = 3;

/// The memory cost, in KiB, with which passwords are hashed.
pub const HASH_MEMORY_KIB: u32 = 19456;

/// The number of passes with which passwords are hashed.
pub const HASH_ITERATIONS: u32 = 2;

/// The degree of parallelism with which passwords are hashed.
pub const HASH_PARALLELISM: u32 = 1;

/// Why a password is refused.
#[derive(Debug)]
pub enum PasswordError {
    PasswordTooLong,
    PasswordTooShort,
    /// The password is too easy to guess; the text says why.
    PasswordLowScore(String),
    /// The strength of the password could not be estimated.
    UnexpectedError(String),
}

/// What a `PasswordError` holds.
pub enum PasswordErrorView {
    PasswordTooLong,
    PasswordTooShort,
    PasswordLowScore(Seq<char>),
    UnexpectedError(Seq<char>),
}

impl View for PasswordError {
    type V = PasswordErrorView;

    open spec fn view(&self) -> PasswordErrorView {
        match self {
            PasswordError::PasswordTooLong => PasswordErrorView::PasswordTooLong,
            PasswordError::PasswordTooShort => PasswordErrorView::PasswordTooShort,
            PasswordError::PasswordLowScore(why) => PasswordErrorView::PasswordLowScore(why@),
            PasswordError::UnexpectedError(why) => PasswordErrorView::UnexpectedError(why@),
        }
    }
}

impl PasswordError {
    /// The error as it is shown to the user.
    pub fn message(&self) -> (text: String)
        ensures
            text@ == match self@ {
                PasswordErrorView::PasswordTooLong => "Password should be at most 128 characters long."@,
                PasswordErrorView::PasswordTooShort => "Password should be at least 12 characters long."@,
                PasswordErrorView::PasswordLowScore(why) => why,
                PasswordErrorView::UnexpectedError(why) => why,
            },
    {
        match self {
            PasswordError::PasswordTooLong => String::from_str(
                "Password should be at most 128 characters long.",
            ),
            PasswordError::PasswordTooShort => String::from_str(
                "Password should be at least 12 characters long.",
            ),
            PasswordError::PasswordLowScore(why) => why.clone(),
            PasswordError::UnexpectedError(why) => why.clone(),
        }
    }
}

/// How strong a password is: a score from 0 to `MAX_SCORE`, and for a score
/// below `ACCEPTABLE_SCORE` the reason why the password is weak.
#[derive(Debug)]
pub struct PasswordFeedback {
    pub score: u8,
    pub info: Option<String>,
}

/// What a `PasswordFeedback` holds.
pub struct PasswordFeedbackView {
    pub score: u8,
    pub info: Option<Seq<char>>,
}

impl View for PasswordFeedback {
    type V = PasswordFeedbackView;

    open spec fn view(&self) -> PasswordFeedbackView {
        PasswordFeedbackView {
            score: self.score,
            info: match self.info {
                Some(text) => Some(text@),
                None => None,
            },
        }
    }
}

/// Which bound of the length a password breaks, if any. A password is too
/// short below `MIN_LENGTH` grapheme clusters and too long from `MAX_LENGTH`
/// on.
pub open spec fn length_fault(password: Seq<char>) -> Option<PasswordErrorView> {
    if grapheme_count(password) < MIN_LENGTH {
        Some(PasswordErrorView::PasswordTooShort)
    } else if grapheme_count(password) >= MAX_LENGTH {
        Some(PasswordErrorView::PasswordTooLong)
    } else {
        None
    }
}

/// What is reported when a weak password comes without a reason.
pub open spec fn missing_feedback() -> Seq<char> {
    "Failed to get a feedback reference"@
}

/// The feedback for a password with the given score and warning. A weak
/// password must come with a warning.
pub open spec fn feedback_of(score: u8, warning: Option<Seq<char>>) -> Result<
    PasswordFeedbackView,
    PasswordErrorView,
> {
    if score < ACCEPTABLE_SCORE {
        match warning {
            Some(text) => Ok(PasswordFeedbackView { score, info: Some(text) }),
            None => Err(PasswordErrorView::UnexpectedError(missing_feedback())),
        }
    } else {
        Ok(PasswordFeedbackView { score, info: None })
    }
}

/// Whether a password of acceptable length with this feedback is accepted: it
/// is with a score from `ACCEPTABLE_SCORE` to `MAX_SCORE`. Otherwise the
/// refusal carries the feedback's reason, or no text where there is none.
pub open spec fn score_fault(feedback: PasswordFeedbackView) -> Option<PasswordErrorView> {
    if ACCEPTABLE_SCORE <= feedback.score <= MAX_SCORE {
        None
    } else {
        Some(
            PasswordErrorView::PasswordLowScore(
                match feedback.info {
                    Some(text) => text,
                    None => Seq::empty(),
                },
            ),
        )
    }
}

/// The verdict on a password, given the outcome of the strength estimate.
pub open spec fn verdict(
    password: Seq<char>,
    estimate: Result<PasswordFeedbackView, PasswordErrorView>,
) -> Option<PasswordErrorView> {
    match length_fault(password) {
        Some(e) => Some(e),
        None => match estimate {
            Err(e) => Some(e),
            Ok(feedback) => score_fault(feedback),
        },
    }
}

/// `zxcvbn::zxcvbn` without user inputs, with the score and the text of the
/// warning taken from the estimate, or the text of the error. The score is
/// from 0 to 4. The function reads the clock twice to time itself, and does
/// not return if the clock is set back in between; so nothing more is
/// promised of its outcome.
#[verifier::external_body]
fn estimate_strength(password: &str) -> (r: Result<(u8, Option<String>), String>)
    ensures
        r matches Ok((score, _)) ==> score <= MAX_SCORE,
{
    match zxcvbn::zxcvbn(password, &[]) {
        Ok(entropy) => Ok(
            (
                entropy.score(),
                entropy.feedback().as_ref().and_then(|f| f.warning()).map(|w| w.to_string()),
            ),
        ),
        Err(e) => Err(e.to_string()),
    }
}

/// A password that has passed the policy.
pub struct Password(String);

impl View for Password {
    type V = Seq<char>;

    closed spec fn view(&self) -> Seq<char> {
        self.0@
    }
}

/// The view of what judging a password returns.
pub open spec fn parsed_view(r: Result<Password, PasswordError>) -> Result<
    Seq<char>,
    PasswordErrorView,
> {
    match r {
        Ok(password) => Ok(password@),
        Err(e) => Err(e@),
    }
}

/// The view of an estimate.
pub open spec fn estimate_view(r: Result<PasswordFeedback, PasswordError>) -> Result<
    PasswordFeedbackView,
    PasswordErrorView,
> {
    match r {
        Ok(feedback) => Ok(feedback@),
        Err(e) => Err(e@),
    }
}

impl Password {
    #[verifier::type_invariant]
    spec fn well_formed(&self) -> bool {
        length_fault(self.0@) is None
    }

    /// Checks the length of a password, in grapheme clusters.
    pub fn check_length(password: &str) -> (r: Result<(), PasswordError>)
        ensures
            match r {
                Ok(()) => length_fault(password@) is None,
                Err(e) => length_fault(password@) == Some(e@),
            },
    {
        let length = count_graphemes(password);
        if length < MIN_LENGTH {
            Err(PasswordError::PasswordTooShort)
        } else if length >= MAX_LENGTH {
            Err(PasswordError::PasswordTooLong)
        } else {
            Ok(())
        }
    }

    /// Turns a score and a warning into feedback. See `feedback_of`.
    pub fn feedback_from(score: u8, warning: Option<String>) -> (r: Result<
        PasswordFeedback,
        PasswordError,
    >)
        ensures
            estimate_view(r) == feedback_of(
                score,
                match warning {
                    Some(text) => Some(text@),
                    None => None,
                },
            ),
    {
        if score < ACCEPTABLE_SCORE {
            match warning {
                Some(text) => Ok(PasswordFeedback { score, info: Some(text) }),
                None => Err(
                    PasswordError::UnexpectedError(
                        String::from_str("Failed to get a feedback reference"),
                    ),
                ),
            }
        } else {
            Ok(PasswordFeedback { score, info: None })
        }
    }

    /// Estimates the strength of a candidate. The estimate comes from
    /// outside: it is feedback with a score of at most `MAX_SCORE` that, below
    /// `ACCEPTABLE_SCORE`, carries a reason, or it is an unexpected error.
    pub fn password_feedback(password_candidate: &str) -> (r: Result<PasswordFeedback, PasswordError>)
        ensures
            match r {
                Ok(feedback) => feedback.score <= MAX_SCORE && (feedback.score < ACCEPTABLE_SCORE
                    <==> feedback.info is Some),
                Err(e) => e is UnexpectedError,
            },
    {
        match estimate_strength(password_candidate) {
            Ok((score, warning)) => Password::feedback_from(score, warning),
            Err(why) => Err(PasswordError::UnexpectedError(why)),
        }
    }

    /// Judges a password whose strength was estimated: see `verdict`. The
    /// length is judged first, then the estimate.
    pub fn parse_with(password: &str, estimate: Result<PasswordFeedback, PasswordError>) -> (r:
        Result<Password, PasswordError>)
        ensures
            parsed_view(r) == (match verdict(password@, estimate_view(estimate)) {
                None => Ok::<Seq<char>, PasswordErrorView>(password@),
                Some(e) => Err::<Seq<char>, PasswordErrorView>(e),
            }),
    {
        match Password::check_length(password) {
            Err(e) => {
                return Err(e);
            },
            Ok(()) => {},
        }
        let feedback = match estimate {
            Err(e) => {
                return Err(e);
            },
            Ok(feedback) => feedback,
        };
        if ACCEPTABLE_SCORE <= feedback.score && feedback.score <= MAX_SCORE {
            Ok(Password(password.to_owned()))
        } else {
            match feedback.info {
                Some(text) => Err(PasswordError::PasswordLowScore(text)),
                None => Err(PasswordError::PasswordLowScore(String::new())),
            }
        }
    }

    /// Judges a password: its length, then its estimated strength. A password
    /// of the wrong length is refused for that; any other is accepted
    /// unchanged or refused for its strength, as the estimate decides.
    pub fn parse(password: &str) -> (r: Result<Password, PasswordError>)
        ensures
            match r {
                Ok(parsed) => length_fault(password@) is None && parsed@ == password@,
                Err(e) => match length_fault(password@) {
                    Some(fault) => e@ == fault,
                    None => e is PasswordLowScore || e is UnexpectedError,
                },
            },
    {
        match Password::check_length(password) {
            Err(e) => Err(e),
            Ok(()) => Password::parse_with(password, Password::password_feedback(password)),
        }
    }

    /// The password's text.
    pub fn inner_ref(&self) -> (text: &str)
        ensures
            text@ == self@,
    {
        self.0.as_str()
    }
}

/// Why an authentication failed.
#[derive(Debug)]
pub enum AuthError {
    /// The credentials are wrong; the text says what was wrong.
    InvalidCredentials(String),
    /// The credentials could not be checked.
    UnexpectedError(String),
}

/// What an `AuthError` holds.
pub enum AuthErrorView {
    InvalidCredentials(Seq<char>),
    UnexpectedError(Seq<char>),
}

impl View for AuthError {
    type V = AuthErrorView;

    open spec fn view(&self) -> AuthErrorView {
        match self {
            AuthError::InvalidCredentials(why) => AuthErrorView::InvalidCredentials(why@),
            AuthError::UnexpectedError(why) => AuthErrorView::UnexpectedError(why@),
        }
    }
}

impl AuthError {
    /// The error as it is shown: wrong credentials are never explained.
    pub fn message(&self) -> (text: String)
        ensures
            text@ == match self@ {
                AuthErrorView::InvalidCredentials(_) => "Authentication failed."@,
                AuthErrorView::UnexpectedError(why) => why,
            },
    {
        match self {
            AuthError::InvalidCredentials(_) => String::from_str("Authentication failed."),
            AuthError::UnexpectedError(why) => why.clone(),
        }
    }
}

/// A user name and the password offered with it.
pub struct Credentials {
    pub username: String,
    pub password: String,
}

/// What is stored of a user: the identifier and the hash of the password.
pub struct StoredCredentials {
    pub user_id: u128,
    pub password_hash: String,
}

/// Whether `PasswordHash::new` accepts a string as a hash in PHC format.
pub uninterp spec fn phc_parses(hash: Seq<char>) -> bool;

/// Whether `Argon2::default().verify_password` accepts the candidate for the
/// parsed hash.
pub uninterp spec fn argon2_accepts(hash: Seq<char>, candidate: Seq<char>) -> bool;

/// `PasswordHash::new`: whether the string parses as a hash in PHC format.
/// The answer depends on the string alone.
#[verifier::external_body]
fn hash_parses(hash: &str) -> (b: bool)
    ensures
        b == phc_parses(hash@),
{
    argon2::PasswordHash::new(hash).is_ok()
}

/// `PasswordVerifier::verify_password` of `Argon2::default()` on a hash that
/// parses: whether the candidate hashes, under the parameters and the salt
/// that the hash names, to the output that it holds. The answer depends on
/// the two strings alone. The memory that the check takes is the memory cost
/// that the hash names.
#[verifier::external_body]
fn hash_accepts(hash: &str, candidate: &str) -> (b: bool)
    requires
        phc_parses(hash@),
    ensures
        b == argon2_accepts(hash@, candidate@),
{
    match argon2::PasswordHash::new(hash) {
        Ok(parsed) => argon2::PasswordVerifier::verify_password(
            &argon2::Argon2::default(),
            candidate.as_bytes(),
            &parsed,
        ).is_ok(),
        Err(_) => false,
    }
}

/// `Argon2::hash_password` of an Argon2id hasher of version 0x13 with the
/// given costs, under a salt drawn by `SaltString::generate` from the thread's
/// random generator: the hash in PHC format, or the text of the error. The
/// salt is random, so nothing is promised of the outcome.
#[verifier::external_body]
fn hash_with_fresh_salt(password: &str, memory_kib: u32, iterations: u32, parallelism: u32) -> (r:
    Result<String, String>) {
    let salt = argon2::password_hash::SaltString::generate(&mut rand::thread_rng());
    let params = argon2::Params::new(memory_kib, iterations, parallelism, None).map_err(
        |e| e.to_string(),
    )?;
    argon2::PasswordHasher::hash_password(
        &argon2::Argon2::new(argon2::Algorithm::Argon2id, argon2::Version::V0x13, params),
        password.as_bytes(),
        &salt,
    ).map(|hash| hash.to_string()).map_err(|e| e.to_string())
}

/// The hash that stands in for the stored one when the user is unknown, so
/// that a check takes as long for an unknown user as for a known one.
pub open spec fn fallback_hash() -> Seq<char> {
    "$argon2id$v=19$m=19456,t=2,p=1$gZiV/M1gPc22ElAH/Jh1Hw$CWOrkoo7oJBQ/iyh7uJ0LO2aLEfrHwTWllSAxT0zRno"@
}

/// What the check of a candidate against a hash finds: nothing, or the error.
pub open spec fn hash_fault(expected_hash: Seq<char>, candidate: Seq<char>) -> Option<AuthErrorView> {
    if !phc_parses(expected_hash) {
        Some(AuthErrorView::UnexpectedError("Failed to parse hash in PHC string format."@))
    } else if !argon2_accepts(expected_hash, candidate) {
        Some(AuthErrorView::InvalidCredentials("Invalid password."@))
    } else {
        None
    }
}

/// The outcome of checking a candidate against what is stored of a user, or
/// against the fallback hash where nothing is stored. The hash is checked in
/// either case; an unknown user is refused even where the candidate matches
/// the fallback.
pub open spec fn credentials_verdict(stored: Option<(u128, Seq<char>)>, candidate: Seq<char>) -> Result<
    u128,
    AuthErrorView,
> {
    let expected = match stored {
        Some((_, hash)) => hash,
        None => fallback_hash(),
    };
    match hash_fault(expected, candidate) {
        Some(e) => Err(e),
        None => match stored {
            Some((user_id, _)) => Ok(user_id),
            None => Err(AuthErrorView::InvalidCredentials("Unknown username."@)),
        },
    }
}

/// Checks a candidate against a stored hash. See `hash_fault`.
pub fn verify_password_hash(expected_password_hash: &str, password_candidate: &str) -> (r: Result<
    (),
    AuthError,
>)
    ensures
        match r {
            Ok(()) => hash_fault(expected_password_hash@, password_candidate@) is None,
            Err(e) => hash_fault(expected_password_hash@, password_candidate@) == Some(e@),
        },
{
    if !hash_parses(expected_password_hash) {
        return Err(
            AuthError::UnexpectedError(String::from_str("Failed to parse hash in PHC string format.")),
        );
    }
    if !hash_accepts(expected_password_hash, password_candidate) {
        return Err(AuthError::InvalidCredentials(String::from_str("Invalid password.")));
    }
    Ok(())
}

/// Checks a password against what is stored of the user that offered it,
/// `None` where no such user is stored. See `credentials_verdict`.
pub fn validate_credentials(stored: Option<StoredCredentials>, password: &str) -> (r: Result<
    u128,
    AuthError,
>)
    ensures
        match r {
            Ok(user_id) => credentials_verdict(
                match stored {
                    Some(s) => Some((s.user_id, s.password_hash@)),
                    None => None,
                },
                password@,
            ) == Ok::<u128, AuthErrorView>(user_id),
            Err(e) => credentials_verdict(
                match stored {
                    Some(s) => Some((s.user_id, s.password_hash@)),
                    None => None,
                },
                password@,
            ) == Err::<u128, AuthErrorView>(e@),
        },
{
    let mut user_id: Option<u128> = None;
    let mut expected_password_hash = String::from_str(
        "$argon2id$v=19$m=19456,t=2,p=1$gZiV/M1gPc22ElAH/Jh1Hw$CWOrkoo7oJBQ/iyh7uJ0LO2aLEfrHwTWllSAxT0zRno",
    );
    match stored {
        Some(found) => {
            user_id = Some(found.user_id);
            expected_password_hash = found.password_hash;
        },
        None => {},
    }
    match verify_password_hash(expected_password_hash.as_str(), password) {
        Err(e) => {
            return Err(e);
        },
        Ok(()) => {},
    }
    match user_id {
        Some(id) => Ok(id),
        None => Err(AuthError::InvalidCredentials(String::from_str("Unknown username."))),
    }
}

/// What becomes of the outcome of hashing a password. A hash is kept where it
/// accepts the password that it was made from, which is what a later check of
/// the credentials relies on; a hash that does not is refused with what the
/// check found. An error of the hasher is passed on.
pub open spec fn usable_hash(password: Seq<char>, outcome: Result<Seq<char>, Seq<char>>) -> Result<
    Seq<char>,
    Seq<char>,
> {
    match outcome {
        Err(why) => Err(why),
        Ok(hash) => match hash_fault(hash, password) {
            None => Ok(hash),
            Some(AuthErrorView::InvalidCredentials(why)) => Err(why),
            Some(AuthErrorView::UnexpectedError(why)) => Err(why),
        },
    }
}

/// The texts of an outcome of hashing.
pub open spec fn hash_outcome_view(r: Result<String, String>) -> Result<Seq<char>, Seq<char>> {
    match r {
        Ok(hash) => Ok(hash@),
        Err(why) => Err(why@),
    }
}

/// Checks a freshly computed hash against the password that it was made
/// from. See `usable_hash`.
pub fn check_computed_hash(password: &str, outcome: Result<String, String>) -> (r: Result<
    String,
    String,
>)
    ensures
        hash_outcome_view(r) == usable_hash(password@, hash_outcome_view(outcome)),
{
    match outcome {
        Err(why) => Err(why),
        Ok(hash) => match verify_password_hash(hash.as_str(), password) {
            Ok(()) => Ok(hash),
            Err(AuthError::InvalidCredentials(why)) => Err(why),
            Err(AuthError::UnexpectedError(why)) => Err(why),
        },
    }
}

/// Hashes a password for storage, with Argon2id under `HASH_MEMORY_KIB`,
/// `HASH_ITERATIONS` and `HASH_PARALLELISM` and a fresh random salt, and
/// checks the hash before it hands it out. The salt is drawn at random, so
/// which hash comes back is open; but a hash that comes back is in PHC format
/// and accepts the password, so that `validate_credentials` will accept the
/// password for the user under whom the hash is stored.
pub fn compute_password_hash(password: &Password) -> (r: Result<String, String>)
    ensures
        r matches Ok(hash) ==> phc_parses(hash@) && argon2_accepts(hash@, password@),
        r matches Ok(hash) ==> forall|user_id: u128|
            credentials_verdict(Some((user_id, hash@)), password@) == Ok::<u128, AuthErrorView>(
                user_id,
            ),
{
    let outcome = hash_with_fresh_salt(
        password.inner_ref(),
        HASH_MEMORY_KIB,
        HASH_ITERATIONS,
        HASH_PARALLELISM,
    );
    check_computed_hash(password.inner_ref(), outcome)
}

/// Why a change of password is refused before the current password is
/// looked at.
#[derive(Debug)]
pub enum NewPasswordError {
    /// The new password and its repetition differ.
    Mismatch,
    /// The new password breaks the policy.
    Policy(PasswordError),
}

impl NewPasswordError {
    /// The notice shown to the user.
    pub fn notice(&self) -> (text: String)
        ensures
            text@ == match self {
                NewPasswordError::Mismatch => "New password entries does not match."@,
                NewPasswordError::Policy(e) => match e@ {
                    PasswordErrorView::PasswordTooLong => "Password should be at most 128 characters long."@,
                    PasswordErrorView::PasswordTooShort => "Password should be at least 12 characters long."@,
                    PasswordErrorView::PasswordLowScore(why) => why,
                    PasswordErrorView::UnexpectedError(why) => why,
                },
            },
    {
        match self {
            NewPasswordError::Mismatch => String::from_str("New password entries does not match."),
            NewPasswordError::Policy(e) => e.message(),
        }
    }
}

/// The first check of a change of password: the new password must equal its
/// repetition, and must then pass the policy.
pub fn check_new_password(new_password: &str, repeated: &str) -> (r: Result<
    Password,
    NewPasswordError,
>)
    ensures
        new_password@ != repeated@ ==> r is Err && r->Err_0 is Mismatch,
        new_password@ == repeated@ ==> match r {
            Ok(parsed) => length_fault(new_password@) is None && parsed@ == new_password@,
            Err(NewPasswordError::Mismatch) => false,
            Err(NewPasswordError::Policy(e)) => match length_fault(new_password@) {
                Some(fault) => e@ == fault,
                None => e is PasswordLowScore || e is UnexpectedError,
            },
        },
{
    if !crate::text::str_eq(new_password, repeated) {
        return Err(NewPasswordError::Mismatch);
    }
    match Password::parse(new_password) {
        Ok(password) => Ok(password),
        Err(e) => Err(NewPasswordError::Policy(e)),
    }
}

} // verus!
