//! Checks applied to a proposed new password before the password-change flow
//! goes any further.

use vstd::prelude::*;
use vstd::string::StringSliceAdditionalSpecFns;

use crate::text::str_eq;

verus! {

broadcast use vstd::slice::axiom_spec_len;

/// True when the candidate password's byte length falls outside the accepted
/// range: fewer than 12 bytes, or more than 129.
pub open spec fn password_length_rejected(s: Seq<char>) -> bool {
    vstd::utf8::encode_utf8(s).len() < 12 || vstd::utf8::encode_utf8(s).len() > 129
}

/// Rejects passwords whose length falls outside the accepted range.
pub fn check_if_password_length_is_greater_than_12(password: &str) -> (r: bool)
    ensures
        r == password_length_rejected(password@),
{
    let n = password.as_bytes().len();
    n < 12 || n > 129
}

/// True when the two password fields differ, so the change must be rejected.
pub fn check_if_password_match(new_password: &str, new_password_check: &str) -> (r: bool)
    ensures
        r == (new_password@ != new_password_check@),
{
    !str_eq(new_password, new_password_check)
}

} // verus!
