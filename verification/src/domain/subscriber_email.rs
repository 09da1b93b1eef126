//! A subscriber's email address.

use vstd::prelude::*;
use vstd::string::*;

verus! {

/// Whether `validator::validate_email` accepts a string as an email address.
pub uninterp spec fn valid_email(s: Seq<char>) -> bool;

/// What is said of an address that is refused.
pub open spec fn invalid_email_message(s: Seq<char>) -> Seq<char> {
    s + " is not a valid subscriber email."@
}

/// `validator::validate_email`: whether the string is an email address by the
/// rules of HTML5 forms. The answer depends on the string alone.
#[verifier::external_body]
fn validate_email(email: &str) -> (b: bool)
    ensures
        b == valid_email(email@),
{
    validator::validate_email(email)
}

/// An email address that has passed validation.
#[derive(Debug)]
pub struct SubscriberEmail(String);

impl View for SubscriberEmail {
    type V = Seq<char>;

    closed spec fn view(&self) -> Seq<char> {
        self.0@
    }
}

impl SubscriberEmail {
    #[verifier::type_invariant]
    spec fn well_formed(&self) -> bool {
        valid_email(self.0@)
    }

    /// Accepts `email` exactly when it is a valid address; a refusal quotes
    /// the input.
    pub fn parse(email: String) -> (r: Result<SubscriberEmail, String>)
        ensures
            match r {
                Ok(parsed) => valid_email(email@) && parsed@ == email@,
                Err(message) => !valid_email(email@) && message@ == invalid_email_message(email@),
            },
    {
        if validate_email(email.as_str()) {
            Ok(SubscriberEmail(email))
        } else {
            Err(email.concat(" is not a valid subscriber email."))
        }
    }

    /// The address's text.
    pub fn as_ref(&self) -> (s: &str)
        ensures
            s@ == self@,
            valid_email(s@),
    {
        proof {
            use_type_invariant(self);
        }
        self.0.as_str()
    }
}

} // verus!
