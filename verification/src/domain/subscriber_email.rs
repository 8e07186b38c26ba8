//! A subscriber's email address, accepted only when the `validator` crate
//! judges it a well-formed address.

use vstd::prelude::*;
use vstd::string::StringExecFns;

verus! {

/// Whether `validator::validate_email` accepts the string as an email
/// address (the HTML5 notion of a valid address).
pub uninterp spec fn is_valid_email(s: Seq<char>) -> bool;

/// Relies on validator::validate_email: the verdict depends on the characters
/// alone; an empty string is turned away, and so is one without an '@'.
#[verifier::external_body]
fn validate_email_str(s: &str) -> (r: bool)
    ensures
        r == is_valid_email(s@),
        s@.len() == 0 ==> !r,
        (forall|i: int| 0 <= i < s@.len() ==> s@[i] != '@') ==> !r,
{
    validator::validate_email(s)
}

/// A validated subscriber email address.
#[derive(Debug)]
pub struct SubscriberEmail(String);

impl View for SubscriberEmail {
    type V = Seq<char>;

    closed spec fn view(&self) -> Seq<char> {
        self.0@
    }
}

impl SubscriberEmail {
    /// Accepts the string exactly when it is a well-formed email address;
    /// otherwise reports why it was turned away.
    pub fn parse(s: String) -> (r: Result<SubscriberEmail, String>)
        ensures
            match r {
                Ok(email) => is_valid_email(s@) && email@ == s@,
                Err(e) => !is_valid_email(s@) && e@ == s@
                    + " is not a valid subscriber email."@,
            },
    {
        if !validate_email_str(s.as_str()) {
            return Err(s.concat(" is not a valid subscriber email."));
        }
        Ok(SubscriberEmail(s))
    }

    /// A borrowed view of the underlying string.
    pub fn as_ref(&self) -> (r: &str)
        ensures
            r@ == self@,
    {
        self.0.as_str()
    }
}

} // verus!
