//! The idempotency ledger: a durable mapping from (actor, client key) to a
//! claim state and, once computed, the saved response. A publish request
//! first claims its key here; a retry of a resolved key replays the stored
//! response instead of redoing the work.

use vstd::prelude::*;
use vstd::string::StrSliceExecFns;
use vstd::string::StringExecFns;

use crate::response::{ResponseView, StoredResponse};
use crate::text::str_eq;

verus! {

/// A key is valid when it is not empty and holds at most 50 characters.
pub open spec fn valid_idempotency_key(s: Seq<char>) -> bool {
    0 < s.len() <= 50
}

/// A caller-supplied idempotency key, validated before any claim is made.
#[derive(Debug)]
pub struct IdempotencyKey(String);

impl View for IdempotencyKey {
    type V = Seq<char>;

    closed spec fn view(&self) -> Seq<char> {
        self.0@
    }
}

impl IdempotencyKey {
    /// Accepts the string exactly when it is non-empty and holds at most 50
    /// characters.
    pub fn parse(s: String) -> (r: Result<IdempotencyKey, String>)
        ensures
            match r {
                Ok(key) => valid_idempotency_key(s@) && key@ == s@,
                Err(e) => !valid_idempotency_key(s@) && (if s@.len() == 0 {
                    e@ == "The idempotency key cannot be empty"@
                } else {
                    e@ == "The idempotency key must hold at most 50 characters"@
                }),
            },
    {
        let n = s.as_str().unicode_len();
        if n == 0 {
            Err(String::from_str("The idempotency key cannot be empty"))
        } else if n > 50 {
            Err(String::from_str("The idempotency key must hold at most 50 characters"))
        } else {
            Ok(IdempotencyKey(s))
        }
    }

    /// A borrowed view of the underlying string.
    pub fn as_ref(&self) -> (r: &str)
        ensures
            r@ == self@,
    {
        self.0.as_str()
    }
}

/// The state the ledger holds for one (actor, key) pair: when the claim was
/// made, and the saved response once the claim is resolved. A `None`
/// response means the claim is still in flight.
#[verifier::ext_equal]
pub struct LedgerEntryView {
    pub claimed_at: u64,
    pub response: Option<ResponseView>,
}

/// One ledger row.
pub struct IdempotencyRecord {
    pub actor_id: u64,
    pub idempotency_key: String,
    pub claimed_at: u64,
    pub response: Option<StoredResponse>,
}

/// The (actor, key) pair a record is filed under.
pub open spec fn record_key(r: IdempotencyRecord) -> (u64, Seq<char>) {
    (r.actor_id, r.idempotency_key@)
}

/// The entry a record denotes.
pub open spec fn record_entry(r: IdempotencyRecord) -> LedgerEntryView {
    LedgerEntryView {
        claimed_at: r.claimed_at,
        response: match r.response {
            Some(resp) => Some(resp@),
            None => None,
        },
    }
}

/// The mapping a sequence of records denotes.
pub open spec fn ledger_map_of(rs: Seq<IdempotencyRecord>) -> Map<
    (u64, Seq<char>),
    LedgerEntryView,
>
    decreases rs.len(),
{
    if rs.len() == 0 {
        Map::empty()
    } else {
        ledger_map_of(rs.drop_last()).insert(record_key(rs.last()), record_entry(rs.last()))
    }
}

/// No two records share an (actor, key) pair.
pub open spec fn unique_keys(rs: Seq<IdempotencyRecord>) -> bool {
    forall|i: int, j: int|
        0 <= i < rs.len() && 0 <= j < rs.len() && i != j ==> record_key(rs[i]) != record_key(rs[j])
}

/// A key is in the mapping exactly when some record carries it.
proof fn lemma_ledger_map_domain(rs: Seq<IdempotencyRecord>, k: (u64, Seq<char>))
    ensures
        ledger_map_of(rs).contains_key(k) <==> exists|i: int|
            0 <= i < rs.len() && record_key(rs[i]) == k,
    decreases rs.len(),
{
    if rs.len() > 0 {
        lemma_ledger_map_domain(rs.drop_last(), k);
        if k == record_key(rs.last()) {
            assert(record_key(rs[rs.len() - 1]) == k);
        } else {
            if ledger_map_of(rs).contains_key(k) {
                let i = choose|i: int|
                    0 <= i < rs.drop_last().len() && record_key(rs.drop_last()[i]) == k;
                assert(record_key(rs[i]) == k);
            }
            if exists|i: int| 0 <= i < rs.len() && record_key(rs[i]) == k {
                let i = choose|i: int| 0 <= i < rs.len() && record_key(rs[i]) == k;
                assert(record_key(rs.drop_last()[i]) == k);
            }
        }
    }
}

/// With unique keys, the record at index `i` gives the mapping's value at its
/// key.
proof fn lemma_ledger_map_at_index(rs: Seq<IdempotencyRecord>, i: int)
    requires
        unique_keys(rs),
        0 <= i < rs.len(),
    ensures
        ledger_map_of(rs).contains_key(record_key(rs[i])),
        ledger_map_of(rs)[record_key(rs[i])] == record_entry(rs[i]),
    decreases rs.len(),
{
    if i == rs.len() - 1 {
    } else {
        assert(unique_keys(rs.drop_last())) by {
            assert(forall|a: int, b: int|
                0 <= a < rs.drop_last().len() && 0 <= b < rs.drop_last().len() && a != b
                    ==> record_key(rs.drop_last()[a]) != record_key(rs.drop_last()[b])) by {
                assert(forall|a: int|
                    0 <= a < rs.drop_last().len() ==> rs.drop_last()[a] == rs[a]);
            }
        }
        lemma_ledger_map_at_index(rs.drop_last(), i);
        assert(record_key(rs[i]) != record_key(rs.last()));
    }
}

/// Replacing the record at `i` by one with the same key updates the mapping
/// at that key alone.
proof fn lemma_ledger_map_update(rs: Seq<IdempotencyRecord>, i: int, r2: IdempotencyRecord)
    requires
        unique_keys(rs),
        0 <= i < rs.len(),
        record_key(r2) == record_key(rs[i]),
    ensures
        ledger_map_of(rs.update(i, r2)) =~= ledger_map_of(rs).insert(
            record_key(r2),
            record_entry(r2),
        ),
    decreases rs.len(),
{
    let rs2 = rs.update(i, r2);
    if i == rs.len() - 1 {
        assert(rs2.drop_last() =~= rs.drop_last());
        assert(rs2.last() == r2);
    } else {
        assert(unique_keys(rs.drop_last())) by {
            assert(forall|a: int| 0 <= a < rs.drop_last().len() ==> rs.drop_last()[a] == rs[a]);
        }
        lemma_ledger_map_update(rs.drop_last(), i, r2);
        assert(rs2.drop_last() =~= rs.drop_last().update(i, r2));
        assert(rs2.last() == rs.last());
        assert(record_key(rs[i]) != record_key(rs.last()));
    }
}

/// Removing the record at `i` removes its key from the mapping and nothing
/// else.
proof fn lemma_ledger_map_remove(rs: Seq<IdempotencyRecord>, i: int)
    requires
        unique_keys(rs),
        0 <= i < rs.len(),
    ensures
        ledger_map_of(rs.remove(i)) =~= ledger_map_of(rs).remove(record_key(rs[i])),
    decreases rs.len(),
{
    let rs2 = rs.remove(i);
    if i == rs.len() - 1 {
        assert(rs2 =~= rs.drop_last());
        lemma_ledger_map_domain(rs.drop_last(), record_key(rs[i]));
        assert(forall|a: int|
            0 <= a < rs.drop_last().len() ==> rs.drop_last()[a] == rs[a]);
        assert(!ledger_map_of(rs.drop_last()).contains_key(record_key(rs[i])));
    } else {
        assert(unique_keys(rs.drop_last())) by {
            assert(forall|a: int| 0 <= a < rs.drop_last().len() ==> rs.drop_last()[a] == rs[a]);
        }
        lemma_ledger_map_remove(rs.drop_last(), i);
        assert(rs2.drop_last() =~= rs.drop_last().remove(i));
        assert(rs2.last() == rs.last());
        assert(record_key(rs[i]) != record_key(rs.last()));
    }
}

/// The capability that claiming a key hands out; only its owner can resolve
/// or abort the claim.
pub struct ClaimToken {
    actor_id: u64,
    idempotency_key: String,
}

impl View for ClaimToken {
    type V = (u64, Seq<char>);

    closed spec fn view(&self) -> (u64, Seq<char>) {
        (self.actor_id, self.idempotency_key@)
    }
}

/// What a claim attempt found.
pub enum ClaimOutcome {
    /// The key was never seen: the caller owns it and must resolve or abort.
    Claimed(ClaimToken),
    /// The key was already resolved: the saved response, to replay directly.
    AlreadyResolved(StoredResponse),
    /// Another caller holds an in-flight claim on the key.
    InProgressElsewhere,
}

/// The idempotency ledger itself.
pub struct IdempotencyLedger {
    records: Vec<IdempotencyRecord>,
}

impl View for IdempotencyLedger {
    type V = Map<(u64, Seq<char>), LedgerEntryView>;

    closed spec fn view(&self) -> Map<(u64, Seq<char>), LedgerEntryView> {
        ledger_map_of(self.records@)
    }
}

impl IdempotencyLedger {
    /// At most one record per (actor, key) pair.
    pub closed spec fn wf(&self) -> bool {
        unique_keys(self.records@)
    }

    /// An empty ledger.
    pub fn new() -> (r: IdempotencyLedger)
        ensures
            r.wf(),
            r@ == Map::<(u64, Seq<char>), LedgerEntryView>::empty(),
    {
        IdempotencyLedger { records: Vec::new() }
    }

    /// The index of the record filed under (actor, key), if any.
    fn find_index(&self, actor_id: u64, key: &str) -> (r: Option<usize>)
        ensures
            match r {
                Some(i) => i < self.records@.len() && record_key(self.records@[i as int]) == (
                    actor_id,
                    key@,
                ),
                None => forall|i: int|
                    0 <= i < self.records@.len() ==> record_key(self.records@[i]) != (
                        actor_id,
                        key@,
                    ),
            },
    {
        let mut i: usize = 0;
        while i < self.records.len()
            invariant
                i <= self.records@.len(),
                forall|j: int|
                    0 <= j < i ==> record_key(self.records@[j]) != (actor_id, key@),
            decreases self.records@.len() - i,
        {
            let rec = &self.records[i];
            if rec.actor_id == actor_id && str_eq(rec.idempotency_key.as_str(), key) {
                return Some(i);
            }
            i += 1;
        }
        None
    }

    /// Atomically attempts to insert an in-flight record for (actor, key).
    /// A never-seen key is claimed; a resolved key hands back the saved
    /// response for direct replay; a key in flight elsewhere is reported so
    /// the caller can wait for its resolution.
    pub fn claim(&mut self, actor_id: u64, key: &IdempotencyKey, now: u64) -> (r: ClaimOutcome)
        requires
            old(self).wf(),
        ensures
            final(self).wf(),
            match r {
                ClaimOutcome::Claimed(token) => {
                    &&& !old(self)@.contains_key((actor_id, key@))
                    &&& token@ == (actor_id, key@)
                    &&& final(self)@ == old(self)@.insert(
                        (actor_id, key@),
                        LedgerEntryView { claimed_at: now, response: None },
                    )
                },
                ClaimOutcome::AlreadyResolved(resp) => {
                    &&& old(self)@.contains_key((actor_id, key@))
                    &&& old(self)@[(actor_id, key@)].response == Some(resp@)
                    &&& final(self)@ == old(self)@
                },
                ClaimOutcome::InProgressElsewhere => {
                    &&& old(self)@.contains_key((actor_id, key@))
                    &&& old(self)@[(actor_id, key@)].response is None
                    &&& final(self)@ == old(self)@
                },
            },
    {
        match self.find_index(actor_id, key.as_ref()) {
            Some(i) => {
                proof {
                    lemma_ledger_map_at_index(self.records@, i as int);
                }
                match &self.records[i].response {
                    Some(resp) => ClaimOutcome::AlreadyResolved(resp.duplicate()),
                    None => ClaimOutcome::InProgressElsewhere,
                }
            },
            None => {
                proof {
                    lemma_ledger_map_domain(self.records@, (actor_id, key@));
                }
                let record = IdempotencyRecord {
                    actor_id,
                    idempotency_key: String::from_str(key.as_ref()),
                    claimed_at: now,
                    response: None,
                };
                let ghost old_records = self.records@;
                self.records.push(record);
                proof {
                    assert(self.records@.drop_last() =~= old_records);
                }
                ClaimOutcome::Claimed(
                    ClaimToken { actor_id, idempotency_key: String::from_str(key.as_ref()) },
                )
            },
        }
    }

    /// Attaches the final response to the claim the token owns. Resolving a
    /// key that was never claimed, or resolving it twice, is a programming
    /// error and is ruled out by the precondition.
    pub fn resolve(&mut self, token: ClaimToken, response: StoredResponse)
        requires
            old(self).wf(),
            old(self)@.contains_key(token@),
            old(self)@[token@].response is None,
        ensures
            final(self).wf(),
            final(self)@ == old(self)@.insert(
                token@,
                LedgerEntryView {
                    claimed_at: old(self)@[token@].claimed_at,
                    response: Some(response@),
                },
            ),
    {
        proof {
            lemma_ledger_map_domain(self.records@, token@);
        }
        match self.find_index(token.actor_id, token.idempotency_key.as_str()) {
            Some(i) => {
                proof {
                    lemma_ledger_map_at_index(self.records@, i as int);
                }
                let ghost old_records = self.records@;
                let claimed_at = self.records[i].claimed_at;
                let record = IdempotencyRecord {
                    actor_id: token.actor_id,
                    idempotency_key: token.idempotency_key,
                    claimed_at,
                    response: Some(response),
                };
                proof {
                    lemma_ledger_map_update(old_records, i as int, record);
                }
                self.records[i] = record;
            },
            None => {
                proof {
                    assert(false);
                }
            },
        }
    }

    /// Rolls an in-flight claim back, as when the atomic unit that made it
    /// aborts: afterwards the key reads as never seen, so a retry may
    /// reclaim it and redo the work.
    pub fn abort(&mut self, token: ClaimToken)
        requires
            old(self).wf(),
            old(self)@.contains_key(token@),
            old(self)@[token@].response is None,
        ensures
            final(self).wf(),
            final(self)@ == old(self)@.remove(token@),
    {
        proof {
            lemma_ledger_map_domain(self.records@, token@);
        }
        match self.find_index(token.actor_id, token.idempotency_key.as_str()) {
            Some(i) => {
                proof {
                    lemma_ledger_map_remove(self.records@, i as int);
                }
                self.records.remove(i);
            },
            None => {
                proof {
                    assert(false);
                }
            },
        }
    }

    /// The saved response for (actor, key), if the key is resolved.
    pub fn saved_response(&self, actor_id: u64, key: &IdempotencyKey) -> (r: Option<
        StoredResponse,
    >)
        requires
            self.wf(),
        ensures
            match r {
                Some(resp) => self@.contains_key((actor_id, key@)) && self@[(
                    actor_id,
                    key@,
                )].response == Some(resp@),
                None => !self@.contains_key((actor_id, key@)) || self@[(
                    actor_id,
                    key@,
                )].response is None,
            },
    {
        match self.find_index(actor_id, key.as_ref()) {
            Some(i) => {
                proof {
                    lemma_ledger_map_at_index(self.records@, i as int);
                }
                match &self.records[i].response {
                    Some(resp) => Some(resp.duplicate()),
                    None => None,
                }
            },
            None => {
                proof {
                    lemma_ledger_map_domain(self.records@, (actor_id, key@));
                }
                None
            },
        }
    }
}

} // verus!
