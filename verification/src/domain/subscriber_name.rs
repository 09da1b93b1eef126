//! A subscriber's name.

use crate::text::{blank, contains_any_of, has_any_of, is_blank};
use vstd::prelude::*;
use vstd::string::*;

verus! {

/// The longest name that is accepted, in grapheme clusters.
pub const MAX_NAME_LENGTH: usize = 256;

/// The number of extended grapheme clusters of a string, as
/// `UnicodeSegmentation::graphemes` splits it.
pub uninterp spec fn grapheme_count(s: Seq<char>) -> nat;

/// The characters that no name may hold.
pub open spec fn forbidden_characters() -> Seq<char> {
    seq!['\\', '/', '<', '>', '{', '}', '"', '(', ')', '\'', ';', ':', '|']
}

/// What a name must satisfy: it is not blank, has at most `MAX_NAME_LENGTH`
/// grapheme clusters, and holds none of the forbidden characters.
pub open spec fn valid_name(s: Seq<char>) -> bool {
    &&& !is_blank(s)
    &&& grapheme_count(s) <= MAX_NAME_LENGTH
    &&& !has_any_of(s, forbidden_characters())
}

/// What is said of a name that is refused.
pub open spec fn invalid_name_message(s: Seq<char>) -> Seq<char> {
    s + " is not a valid subscriber name."@
}

/// `UnicodeSegmentation::graphemes` with extended clusters, counted: the
/// number of clusters depends on the string alone.
#[verifier::external_body]
pub(crate) fn count_graphemes(s: &str) -> (n: usize)
    ensures
        n == grapheme_count(s@),
{
    unicode_segmentation::UnicodeSegmentation::graphemes(s, true).count()
}

/// A name that has passed validation.
#[derive(Debug)]
pub struct SubscriberName(String);

impl View for SubscriberName {
    type V = Seq<char>;

    closed spec fn view(&self) -> Seq<char> {
        self.0@
    }
}

impl SubscriberName {
    #[verifier::type_invariant]
    spec fn well_formed(&self) -> bool {
        valid_name(self.0@)
    }

    /// Accepts `name` exactly when it is a valid name; a refusal quotes the
    /// name.
    pub fn parse(name: String) -> (r: Result<SubscriberName, String>)
        ensures
            match r {
                Ok(parsed) => valid_name(name@) && parsed@ == name@,
                Err(message) => !valid_name(name@) && message@ == invalid_name_message(name@),
            },
    {
        let is_empty_or_whitespace = blank(name.as_str());
        let is_too_long = count_graphemes(name.as_str()) > MAX_NAME_LENGTH;
        let forbidden: [char; 13] = [
            '\\',
            '/',
            '<',
            '>',
            '{',
            '}',
            '"',
            '(',
            ')',
            '\'',
            ';',
            ':',
            '|',
        ];
        assert(forbidden@ =~= forbidden_characters());
        let contain_forbidden_characters = contains_any_of(name.as_str(), forbidden.as_slice());
        if is_empty_or_whitespace || is_too_long || contain_forbidden_characters {
            Err(name.concat(" is not a valid subscriber name."))
        } else {
            Ok(SubscriberName(name))
        }
    }

    /// The name's text.
    pub fn as_ref(&self) -> (s: &str)
        ensures
            s@ == self@,
            valid_name(s@),
    {
        proof {
            use_type_invariant(self);
        }
        self.0.as_str()
    }
}

} // verus!
