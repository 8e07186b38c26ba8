//! The HTTP-level response the publish path computes, in the plain form the
//! idempotency ledger can store and replay byte for byte.

use vstd::prelude::*;
use vstd::string::StringExecFns;

verus! {

/// One response header.
pub struct HeaderPair {
    pub name: String,
    pub value: String,
}

impl View for HeaderPair {
    type V = (Seq<char>, Seq<char>);

    open spec fn view(&self) -> (Seq<char>, Seq<char>) {
        (self.name@, self.value@)
    }
}

/// The mathematical shape of a stored response.
#[verifier::ext_equal]
pub struct ResponseView {
    pub status: u16,
    pub headers: Seq<(Seq<char>, Seq<char>)>,
    pub body: Seq<char>,
}

/// A response as the ledger stores it: status code, headers and body.
pub struct StoredResponse {
    pub status: u16,
    pub headers: Vec<HeaderPair>,
    pub body: String,
}

impl View for StoredResponse {
    type V = ResponseView;

    open spec fn view(&self) -> ResponseView {
        ResponseView {
            status: self.status,
            headers: self.headers@.map_values(|h: HeaderPair| h@),
            body: self.body@,
        }
    }
}

impl StoredResponse {
    /// An exact copy, equal to this response header for header and byte for
    /// byte.
    pub fn duplicate(&self) -> (r: StoredResponse)
        ensures
            r@ == self@,
    {
        let mut headers: Vec<HeaderPair> = Vec::new();
        let mut i: usize = 0;
        while i < self.headers.len()
            invariant
                i <= self.headers@.len(),
                headers@.len() == i,
                forall|j: int| 0 <= j < i ==> #[trigger] headers@[j]@ == self.headers@[j]@,
            decreases self.headers@.len() - i,
        {
            let h = HeaderPair {
                name: self.headers[i].name.clone(),
                value: self.headers[i].value.clone(),
            };
            headers.push(h);
            i += 1;
        }
        let r = StoredResponse { status: self.status, headers, body: self.body.clone() };
        proof {
            assert(r@.headers =~= self@.headers);
            assert(r@ =~= self@);
        }
        r
    }
}

/// The view of the redirect that `see_other` builds.
pub open spec fn see_other_view(location: Seq<char>) -> ResponseView {
    ResponseView {
        status: 303,
        headers: seq![("Location"@, location)],
        body: Seq::empty(),
    }
}

/// A See Other redirect to the given location.
pub fn see_other(location: &str) -> (r: StoredResponse)
    ensures
        r@ == see_other_view(location@),
{
    let mut headers: Vec<HeaderPair> = Vec::new();
    headers.push(HeaderPair { name: String::from_str("Location"), value: String::from_str(location) });
    let r = StoredResponse { status: 303, headers, body: String::new() };
    proof {
        assert(r@.headers =~= see_other_view(location@).headers);
        assert(r@ =~= see_other_view(location@));
    }
    r
}

/// The health-check response: an empty OK, for a monitor to poll.
pub fn health_check() -> (r: StoredResponse)
    ensures
        r@ == (ResponseView { status: 200, headers: Seq::empty(), body: Seq::empty() }),
{
    let r = StoredResponse { status: 200, headers: Vec::new(), body: String::new() };
    proof {
        assert(r@ =~= (ResponseView { status: 200, headers: Seq::empty(), body: Seq::empty() }));
    }
    r
}

} // verus!
