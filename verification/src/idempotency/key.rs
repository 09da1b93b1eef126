//! The caller-chosen token that names one logical command.

use vstd::prelude::*;
use vstd::string::*;

verus! {

/// The longest key that is accepted, in characters.
pub const MAX_KEY_LENGTH: usize = 50;

/// Why a string is refused as an idempotency key. Both are faults of the
/// caller's input, never of the server.
#[derive(Clone, Copy, Debug, PartialEq, Eq, Structural)]
pub enum KeyError {
    /// The key has no characters.
    Empty,
    /// The key has more than `MAX_KEY_LENGTH` characters.
    TooLong,
}

impl KeyError {
    /// The error's text.
    pub fn message(&self) -> (text: &'static str)
        ensures
            text@ == (match self {
                KeyError::Empty => "The idempotency key cannot be empty"@,
                KeyError::TooLong => "The idempotency key must not be longer than 50 characters"@,
            }),
    {
        match self {
            KeyError::Empty => "The idempotency key cannot be empty",
            KeyError::TooLong => "The idempotency key must not be longer than 50 characters",
        }
    }
}

/// What a key must satisfy: at least one character and at most
/// `MAX_KEY_LENGTH`.
pub open spec fn valid_key(s: Seq<char>) -> bool {
    0 < s.len() <= MAX_KEY_LENGTH
}

/// An idempotency key that has passed validation.
#[derive(Debug)]
pub struct IdempotencyKey(String);

impl View for IdempotencyKey {
    type V = Seq<char>;

    closed spec fn view(&self) -> Seq<char> {
        self.0@
    }
}

impl IdempotencyKey {
    #[verifier::type_invariant]
    spec fn well_formed(&self) -> bool {
        valid_key(self.0@)
    }

    /// Accepts `s` exactly when it is a valid key; the empty string and a
    /// string that is too long are told apart.
    pub fn parse(s: String) -> (r: Result<IdempotencyKey, KeyError>)
        ensures
            match r {
                Ok(key) => valid_key(s@) && key@ == s@,
                Err(KeyError::Empty) => s@.len() == 0,
                Err(KeyError::TooLong) => s@.len() > MAX_KEY_LENGTH,
            },
    {
        let n: usize = s.as_str().unicode_len();
        if n == 0 {
            Err(KeyError::Empty)
        } else if n > MAX_KEY_LENGTH {
            Err(KeyError::TooLong)
        } else {
            Ok(IdempotencyKey(s))
        }
    }

    /// A copy of the key.
    pub fn duplicate(&self) -> (key: IdempotencyKey)
        ensures
            key@ == self@,
    {
        proof {
            use_type_invariant(self);
        }
        IdempotencyKey(self.0.clone())
    }

    /// The key's text.
    pub fn as_str(&self) -> (s: &str)
        ensures
            s@ == self@,
            valid_key(s@),
    {
        proof {
            use_type_invariant(self);
        }
        self.0.as_str()
    }
}

} // verus!
