//! The details with which somebody subscribes.

use crate::domain::subscriber_email::{invalid_email_message, valid_email, SubscriberEmail};
use crate::domain::subscriber_name::{invalid_name_message, valid_name, SubscriberName};
use vstd::prelude::*;

verus! {

/// A subscriber whose name and address have both passed validation.
#[derive(Debug)]
pub struct NewSubscriber {
    pub name: SubscriberName,
    pub email: SubscriberEmail,
}

impl NewSubscriber {
    /// Validates the two fields of a subscription form, the name first: the
    /// refusal is that of the first field that fails.
    pub fn try_from(name: String, email: String) -> (r: Result<NewSubscriber, String>)
        ensures
            match r {
                Ok(subscriber) => valid_name(name@) && valid_email(email@) && subscriber.name@
                    == name@ && subscriber.email@ == email@,
                Err(message) => if !valid_name(name@) {
                    message@ == invalid_name_message(name@)
                } else {
                    !valid_email(email@) && message@ == invalid_email_message(email@)
                },
            },
    {
        let name = match SubscriberName::parse(name) {
            Ok(name) => name,
            Err(message) => {
                return Err(message);
            },
        };
        let email = match SubscriberEmail::parse(email) {
            Ok(email) => email,
            Err(message) => {
                return Err(message);
            },
        };
        Ok(NewSubscriber { name, email })
    }
}

} // verus!
