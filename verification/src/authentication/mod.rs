//! Who may use the administration pages: the password policy, the check of
//! credentials, and the guards in front of the pages.

pub mod middleware;
pub mod password;

pub use middleware::{force_password_change_on_weak_password, reject_anonymous_users, UserId};
pub use password::{validate_credentials, AuthError, Credentials, Password};
