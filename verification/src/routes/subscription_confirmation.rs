//! Confirming a subscription.

use vstd::prelude::*;
use vstd::string::*;

verus! {

/// What a request for confirmation carries: the token that the subscriber
/// was sent.
#[derive(Debug)]
pub struct Parameters {
    pub subscription_token: String,
}

/// Why a confirmation failed.
#[derive(Debug)]
pub enum ConfirmError {
    /// The token is not one that was handed out.
    Unauthorized(String),
    /// The store failed.
    UnexpectedError(String),
}

impl ConfirmError {
    /// The HTTP status with which the error is answered.
    pub fn status_code(&self) -> (code: u16)
        ensures
            code == (match self {
                ConfirmError::Unauthorized(_) => 401u16,
                ConfirmError::UnexpectedError(_) => 500u16,
            }),
    {
        match self {
            ConfirmError::Unauthorized(_) => 401,
            ConfirmError::UnexpectedError(_) => 500,
        }
    }

    /// The error's text.
    pub fn message(&self) -> (text: &str)
        ensures
            text@ == (match self {
                ConfirmError::Unauthorized(why) => why@,
                ConfirmError::UnexpectedError(why) => why@,
            }),
    {
        match self {
            ConfirmError::Unauthorized(why) => why.as_str(),
            ConfirmError::UnexpectedError(why) => why.as_str(),
        }
    }
}

/// What is said of a token that nobody was given.
pub open spec fn unknown_token_message(token: Seq<char>) -> Seq<char> {
    "There is no subscriber for the token "@ + token
}

/// The subscriber that a token confirms, given what the store found under
/// the token: the subscriber where one was found, and otherwise the refusal
/// of a request that shows no valid token.
pub fn subscriber_of_token(found: Option<u128>, parameters: &Parameters) -> (r: Result<
    u128,
    ConfirmError,
>)
    ensures
        match found {
            Some(id) => r == Ok::<u128, ConfirmError>(id),
            None => r is Err && r->Err_0 is Unauthorized && r->Err_0->Unauthorized_0@
                == unknown_token_message(parameters.subscription_token@),
        },
{
    match found {
        Some(id) => Ok(id),
        None => {
            let mut message = String::from_str("There is no subscriber for the token ");
            message.append(parameters.subscription_token.as_str());
            Err(ConfirmError::Unauthorized(message))
        },
    }
}

/// The text of an error followed by its chain of causes: the error and an
/// empty line, then for each cause a line `Caused by:` and the cause on a
/// line of its own behind a tab.
pub open spec fn chain_text(error: Seq<char>, causes: Seq<Seq<char>>) -> Seq<char>
    decreases causes.len(),
{
    if causes.len() == 0 {
        error + "\n\n"@
    } else {
        chain_text(error, causes.drop_last()) + "Caused by:\n\t"@ + causes.last() + "\n"@
    }
}

/// Writes out an error and its chain of causes. See `chain_text`.
pub fn error_chain_fmt(error: &str, causes: &Vec<String>) -> (text: String)
    ensures
        text@ == chain_text(error@, crate::database::strings_view(causes@)),
{
    let ghost all = crate::database::strings_view(causes@);
    let mut text = String::from_str(error);
    text.append("\n\n");
    let mut i: usize = 0;
    assert(all.take(0) =~= Seq::<Seq<char>>::empty());
    while i < causes.len()
        invariant
            i <= causes.len(),
            all == crate::database::strings_view(causes@),
            text@ == chain_text(error@, all.take(i as int)),
        decreases causes.len() - i,
    {
        proof {
            assert(all.take(i + 1).drop_last() =~= all.take(i as int));
            assert(all.take(i + 1).last() == causes@[i as int]@);
        }
        text.append("Caused by:\n\t");
        text.append(causes[i].as_str());
        text.append("\n");
        i += 1;
    }
    assert(all.take(causes.len() as int) =~= all);
    text
}

} // verus!
