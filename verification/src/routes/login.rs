//! Logging in.

use crate::authentication::password::{
    AuthError, AuthErrorView, PasswordFeedback, ACCEPTABLE_SCORE,
};
use vstd::prelude::*;
use vstd::string::*;

verus! {

/// Why a login failed.
#[derive(Debug)]
pub enum LoginError {
    /// The credentials are wrong.
    AuthError(String),
    /// The credentials could not be checked.
    UnexpectedError(String),
}

impl LoginError {
    /// The notice shown on the login page.
    pub fn message(&self) -> (text: &'static str)
        ensures
            text@ == (match self {
                LoginError::AuthError(_) => "Authentication failed"@,
                LoginError::UnexpectedError(_) => "Something went wrong"@,
            }),
    {
        match self {
            LoginError::AuthError(_) => "Authentication failed",
            LoginError::UnexpectedError(_) => "Something went wrong",
        }
    }

    /// The login error that stands for a failed authentication: wrong
    /// credentials stay wrong credentials, anything else is unexpected. The
    /// cause is kept.
    pub fn from_auth(e: AuthError) -> (r: LoginError)
        ensures
            match e@ {
                AuthErrorView::InvalidCredentials(why) => r is AuthError && r->AuthError_0@ == why,
                AuthErrorView::UnexpectedError(why) => r is UnexpectedError && r->UnexpectedError_0@
                    == why,
            },
    {
        match e {
            AuthError::InvalidCredentials(why) => LoginError::AuthError(why),
            AuthError::UnexpectedError(why) => LoginError::UnexpectedError(why),
        }
    }
}

/// Where a user goes after a login, and what the session notes.
#[derive(Clone, Copy, Debug, PartialEq, Eq, Structural)]
pub struct LoginOutcome {
    /// Whether the password is too weak to be kept.
    pub reset_needed: bool,
}

impl LoginOutcome {
    /// The page that the user is sent to: the page on which the password is
    /// changed where it must be, the dashboard otherwise.
    pub fn location(&self) -> (path: &'static str)
        ensures
            path@ == (if self.reset_needed {
                "/admin/password"@
            } else {
                "/admin/dashboard"@
            }),
    {
        if self.reset_needed {
            "/admin/password"
        } else {
            "/admin/dashboard"
        }
    }
}

/// What follows a successful login: the password must be reset exactly when
/// its score is below `ACCEPTABLE_SCORE`.
pub fn after_login(feedback: &PasswordFeedback) -> (outcome: LoginOutcome)
    ensures
        outcome.reset_needed == (feedback.score < ACCEPTABLE_SCORE),
{
    LoginOutcome { reset_needed: feedback.score < ACCEPTABLE_SCORE }
}

/// The page that a failed login is sent back to.
pub fn login_redirect() -> (path: &'static str)
    ensures
        path@ == "/login"@,
{
    "/login"
}

} // verus!
