//! The guards in front of the administration pages.

use crate::text::str_eq;
use vstd::prelude::*;

verus! {

/// The identifier of a logged-in user.
#[derive(Clone, Copy, Debug, PartialEq, Eq, Structural)]
pub struct UserId(pub u128);

impl UserId {
    /// The identifier itself.
    pub fn deref(&self) -> (id: u128)
        ensures
            id == self.0,
    {
        self.0
    }
}

/// What a guard decides about a request.
#[derive(Clone, Copy, Debug, PartialEq, Eq, Structural)]
pub enum Access {
    /// The request goes on, on behalf of this user where the guard knows one.
    Pass,
    /// The request is answered with a redirect to the login page.
    ToLogin,
    /// The request is answered with a redirect to the page on which the
    /// password is changed.
    ToPasswordChange,
}

impl Access {
    /// The path that the guard redirects to, if it redirects.
    pub fn location(&self) -> (path: Option<&'static str>)
        ensures
            match self {
                Access::Pass => path is None,
                Access::ToLogin => path is Some && path->Some_0@ == "/login"@,
                Access::ToPasswordChange => path is Some && path->Some_0@ == "/admin/password"@,
            },
    {
        match self {
            Access::Pass => None,
            Access::ToLogin => Some("/login"),
            Access::ToPasswordChange => Some("/admin/password"),
        }
    }

    /// Why the guard redirects, for the log.
    pub fn reason(&self) -> (text: Option<&'static str>)
        ensures
            match self {
                Access::Pass => text is None,
                Access::ToLogin => text is Some,
                Access::ToPasswordChange => text is Some && text->Some_0@
                    == "User password does not meet password policy - forcing password reset"@,
            },
    {
        match self {
            Access::Pass => None,
            Access::ToLogin => Some("The user has not logged in"),
            Access::ToPasswordChange => Some(
                "User password does not meet password policy - forcing password reset",
            ),
        }
    }
}

/// The guard in front of every administration page: a request of a session
/// without a user is sent to the login page.
pub fn reject_anonymous_users(session_user: Option<u128>) -> (r: (Access, Option<UserId>))
    ensures
        match session_user {
            Some(id) => r == (Access::Pass, Some(UserId(id))),
            None => r == (Access::ToLogin, None::<UserId>),
        },
{
    match session_user {
        Some(id) => (Access::Pass, Some(UserId(id))),
        None => (Access::ToLogin, None),
    }
}

/// The guard in front of the pages that a user with a weak password may not
/// use. The page on which the password is changed is always open. Otherwise
/// a session whose password must be reset is sent there, a session that does
/// not say is sent to the login page, and any other goes on.
pub fn force_password_change_on_weak_password(path: &str, password_reset: Option<bool>) -> (access:
    Access)
    ensures
        access == (if path@ == "/admin/password"@ {
            Access::Pass
        } else {
            match password_reset {
                Some(true) => Access::ToPasswordChange,
                None => Access::ToLogin,
                Some(false) => Access::Pass,
            }
        }),
{
    if str_eq(path, "/admin/password") {
        return Access::Pass;
    }
    match password_reset {
        Some(true) => Access::ToPasswordChange,
        None => Access::ToLogin,
        Some(false) => Access::Pass,
    }
}

} // verus!
