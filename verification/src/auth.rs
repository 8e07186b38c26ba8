//! HTTP Basic authorisation: extracting a username and password from the
//! value of an Authorization header.

use vstd::prelude::*;
use vstd::string::StrSliceExecFns;
use vstd::string::StringExecFns;
use vstd::utf8::{decode_utf8, valid_utf8};

use base64::Engine;

use crate::text::{find_char, has_prefix, starts_with};

verus! {

/// A caller's credentials as a Basic Authorization header carries them.
#[derive(Debug)]
pub struct Credentials {
    pub username: String,
    pub password: String,
}

/// Why an Authorization header value was turned away.
#[derive(Clone, Copy, PartialEq, Eq, Structural, Debug)]
pub enum BasicAuthError {
    /// The authorization scheme was not `Basic `.
    InvalidScheme,
    /// The credential segment was not valid standard base64.
    InvalidBase64,
    /// The decoded credential bytes were not valid UTF-8.
    InvalidUtf8,
    /// The decoded credentials hold no `:`, so no password was provided.
    MissingPassword,
}

/// What base64's standard-alphabet decode returns for the string: the decoded
/// bytes, or nothing when the string is not valid base64.
pub uninterp spec fn b64_standard_decoded(s: Seq<char>) -> Option<Seq<u8>>;

/// Relies on base64's standard engine: decoding depends on the characters
/// alone and yields the encoded bytes exactly when the input is valid
/// standard base64.
#[verifier::external_body]
fn base64_decode_standard(s: &str) -> (r: Option<Vec<u8>>)
    ensures
        match r {
            Some(v) => b64_standard_decoded(s@) == Some(v@),
            None => b64_standard_decoded(s@) is None,
        },
{
    match base64::engine::general_purpose::STANDARD.decode(s) {
        Ok(v) => Some(v),
        Err(_) => None,
    }
}

/// Relies on String::from_utf8: it succeeds exactly on valid UTF-8, and the
/// returned string holds exactly the given bytes.
#[verifier::external_body]
fn string_from_utf8(v: Vec<u8>) -> (r: Option<String>)
    ensures
        match r {
            Some(s) => valid_utf8(v@) && vstd::utf8::encode_utf8(s@) == v@,
            None => !valid_utf8(v@),
        },
{
    match String::from_utf8(v) {
        Ok(s) => Some(s),
        Err(_) => None,
    }
}

/// Extracts Basic credentials from an Authorization header value: after
/// `Basic `, a base64 segment decoding to UTF-8 of the form
/// `username:password`, split at the first `:` (the password may hold
/// further colons). Each malformed layer is reported distinctly.
pub fn basic_authorisation(header: &str) -> (r: Result<Credentials, BasicAuthError>)
    ensures
        match r {
            Ok(c) => {
                &&& has_prefix(header@, "Basic "@)
                &&& b64_standard_decoded(header@.skip(6)) is Some
                &&& valid_utf8(b64_standard_decoded(header@.skip(6))->0)
                &&& ({
                    let ds = decode_utf8(b64_standard_decoded(header@.skip(6))->0);
                    exists|j: int|
                        0 <= j < ds.len() && (#[trigger] ds[j]) == ':' && (forall|k: int|
                            0 <= k < j ==> ds[k] != ':') && c.username@ == ds.subrange(0, j)
                            && c.password@ == ds.subrange(j + 1, ds.len() as int)
                })
            },
            Err(BasicAuthError::InvalidScheme) => !has_prefix(header@, "Basic "@),
            Err(BasicAuthError::InvalidBase64) => has_prefix(header@, "Basic "@)
                && b64_standard_decoded(header@.skip(6)) is None,
            Err(BasicAuthError::InvalidUtf8) => has_prefix(header@, "Basic "@)
                && b64_standard_decoded(header@.skip(6)) is Some && !valid_utf8(
                b64_standard_decoded(header@.skip(6))->0,
            ),
            Err(BasicAuthError::MissingPassword) => has_prefix(header@, "Basic "@)
                && b64_standard_decoded(header@.skip(6)) is Some && valid_utf8(
                b64_standard_decoded(header@.skip(6))->0,
            ) && (forall|k: int|
                0 <= k < decode_utf8(b64_standard_decoded(header@.skip(6))->0).len()
                    ==> decode_utf8(b64_standard_decoded(header@.skip(6))->0)[k] != ':'),
        },
{
    if !starts_with(header, "Basic ") {
        return Err(BasicAuthError::InvalidScheme);
    }
    let n = header.unicode_len();
    proof {
        reveal_strlit("Basic ");
        assert("Basic "@.len() == 6);
        assert(header@.subrange(6, n as int) =~= header@.skip(6));
    }
    let encoded = header.substring_char(6, n);
    let bytes = match base64_decode_standard(encoded) {
        Some(bytes) => bytes,
        None => {
            return Err(BasicAuthError::InvalidBase64);
        },
    };
    let decoded = match string_from_utf8(bytes) {
        Some(decoded) => decoded,
        None => {
            return Err(BasicAuthError::InvalidUtf8);
        },
    };
    proof {
        vstd::utf8::encode_utf8_decode_utf8(decoded@);
    }
    match find_char(decoded.as_str(), ':') {
        None => Err(BasicAuthError::MissingPassword),
        Some(j) => {
            let m = decoded.as_str().unicode_len();
            let username = decoded.as_str().substring_char(0, j);
            let password = decoded.as_str().substring_char(j + 1, m);
            proof {
                let ds = decode_utf8(b64_standard_decoded(header@.skip(6))->0);
                assert(ds == decoded@);
                assert(ds[j as int] == ':');
            }
            Ok(
                Credentials {
                    username: String::from_str(username),
                    password: String::from_str(password),
                },
            )
        },
    }
}

} // verus!
