//! A subscriber's display name, accepted only when it is not blank, holds at
//! most 256 grapheme clusters, and contains none of the forbidden characters.

use vstd::prelude::*;
use vstd::string::StrSliceExecFns;
use vstd::string::StringExecFns;

use crate::text::{grapheme_count, grapheme_count_of, string_as_mut_str, trim_str, trimmed_of};

verus! {

/// The characters a subscriber name may not contain.
pub open spec fn forbidden_character(c: char) -> bool {
    ||| c == '/'
    ||| c == '('
    ||| c == ')'
    ||| c == '"'
    ||| c == '<'
    ||| c == '>'
    ||| c == '\\'
    ||| c == '{'
    ||| c == '}'
}

/// True when some character of `s` is forbidden in a subscriber name.
pub open spec fn contains_forbidden_character(s: Seq<char>) -> bool {
    exists|i: int| 0 <= i < s.len() && forbidden_character(s[i])
}

/// A name is valid when it is not empty or whitespace alone, holds at most
/// 256 grapheme clusters, and has no forbidden character.
pub open spec fn valid_subscriber_name(s: Seq<char>) -> bool {
    &&& trimmed_of(s).len() != 0
    &&& grapheme_count_of(s) <= 256
    &&& !contains_forbidden_character(s)
}

/// Scans the string for a forbidden character.
pub fn contains_forbidden(s: &str) -> (r: bool)
    ensures
        r == contains_forbidden_character(s@),
{
    let n = s.unicode_len();
    let mut i: usize = 0;
    while i < n
        invariant
            i <= n,
            n == s@.len(),
            forall|j: int| 0 <= j < i ==> !forbidden_character(s@[j]),
        decreases n - i,
    {
        let c = s.get_char(i);
        if c == '/' || c == '(' || c == ')' || c == '"' || c == '<' || c == '>' || c == '\\'
            || c == '{' || c == '}' {
            return true;
        }
        i += 1;
    }
    false
}

/// Runs the three validity checks on a candidate name.
pub fn is_valid_name(s: &str) -> (r: bool)
    ensures
        r == valid_subscriber_name(s@),
{
    let is_empty_or_whitespace = trim_str(s).is_empty();
    let is_too_long = grapheme_count(s) > 256;
    let has_forbidden = contains_forbidden(s);
    !(is_empty_or_whitespace || is_too_long || has_forbidden)
}

/// A validated subscriber name.
#[derive(Debug)]
pub struct SubscriberName(String);

impl View for SubscriberName {
    type V = Seq<char>;

    closed spec fn view(&self) -> Seq<char> {
        self.0@
    }
}

impl SubscriberName {
    /// Accepts the string as a subscriber name exactly when it is not blank,
    /// holds at most 256 grapheme clusters, and has no forbidden character;
    /// otherwise reports why it was turned away.
    pub fn parse(s: String) -> (r: Result<SubscriberName, String>)
        ensures
            match r {
                Ok(name) => valid_subscriber_name(s@) && name@ == s@,
                Err(e) => !valid_subscriber_name(s@) && e@ == s@
                    + " is not a valid subscriber name."@,
            },
    {
        if !is_valid_name(s.as_str()) {
            return Err(s.concat(" is not a valid subscriber name."));
        }
        Ok(SubscriberName(s))
    }

    /// Hands the underlying string back, consuming the name.
    pub fn inner(self) -> (r: String)
        ensures
            r@ == self@,
    {
        self.0
    }

    /// A mutable slice of the underlying string.
    pub fn inner_mut(&mut self) -> (r: &mut str)
        ensures
            r@ == old(self)@,
            final(self)@ == final(r)@,
    {
        string_as_mut_str(&mut self.0)
    }

    /// A borrowed view of the underlying string.
    pub fn as_ref(&self) -> (r: &str)
        ensures
            r@ == self@,
    {
        self.0.as_str()
    }
}

} // verus!
