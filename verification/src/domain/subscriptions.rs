//! The older sign-up types: a subscriber name whose parse insists on a valid
//! input, and the raw email/name pair as it arrives from a form.

use vstd::prelude::*;

use crate::domain::subscriber_name::{is_valid_name, valid_subscriber_name};
use crate::text::string_as_mut_str;

verus! {

/// The raw pair a sign-up form carries before the email is validated.
pub struct NewSubscriber {
    pub email: String,
    pub name: SubscriberName,
}

/// A subscriber name whose `parse` demands a valid input outright.
pub struct SubscriberName(String);

impl View for SubscriberName {
    type V = Seq<char>;

    closed spec fn view(&self) -> Seq<char> {
        self.0@
    }
}

impl SubscriberName {
    /// Wraps a string already known to be a valid subscriber name: not blank,
    /// at most 256 grapheme clusters, no forbidden character.
    pub fn parse(s: String) -> (r: SubscriberName)
        requires
            valid_subscriber_name(s@),
        ensures
            r@ == s@,
    {
        SubscriberName(s)
    }

    /// Checks the string first and wraps it only when it is a valid
    /// subscriber name.
    pub fn try_parse(s: String) -> (r: Option<SubscriberName>)
        ensures
            match r {
                Some(name) => valid_subscriber_name(s@) && name@ == s@,
                None => !valid_subscriber_name(s@),
            },
    {
        if is_valid_name(s.as_str()) {
            Some(SubscriberName::parse(s))
        } else {
            None
        }
    }

    /// Hands the underlying string back, consuming the name.
    pub fn inner(self) -> (r: String)
        ensures
            r@ == self@,
    {
        self.0
    }

    /// A mutable slice of the underlying string.
    pub fn inner_mut(&mut self) -> (r: &mut str)
        ensures
            r@ == old(self)@,
            final(self)@ == final(r)@,
    {
        string_as_mut_str(&mut self.0)
    }

    /// A borrowed view of the underlying string.
    pub fn inner_ref(&self) -> (r: &str)
        ensures
            r@ == self@,
    {
        self.0.as_str()
    }
}

} // verus!
