//! The delivery obligation queue and the worker that drains it. A publish
//! enqueues one obligation per confirmed recipient, atomically with its
//! issue; the worker claims one obligation at a time under a lease, invokes
//! the email collaborator, and resolves the claim: success removes the duty,
//! a transient failure retries it with bounded attempts, a permanent failure
//! drops it without touching its neighbours.

use vstd::prelude::*;
use vstd::string::StringExecFns;

verus! {

/// Where one obligation stands. An in-progress claim carries the time it was
/// taken, so a claim whose lease has lapsed can be taken over after a worker
/// crash.
#[derive(Clone, Copy, PartialEq, Eq, Structural, Debug)]
pub enum ObligationStatus {
    Pending,
    InProgress(u64),
    Done,
    FailedPermanent,
}

/// What the email collaborator reported for one send attempt.
#[derive(Clone, Copy, PartialEq, Eq, Structural, Debug)]
pub enum SendOutcome {
    Sent,
    RetryableError,
    PermanentError,
}

/// The mathematical shape of one obligation.
#[verifier::ext_equal]
pub struct ObligationView {
    pub issue_id: u64,
    pub recipient_email: Seq<char>,
    pub attempt_count: u64,
    pub status: ObligationStatus,
}

/// One pending duty to deliver one issue to one recipient.
pub struct DeliveryObligation {
    pub issue_id: u64,
    pub recipient_email: String,
    pub attempt_count: u64,
    pub status: ObligationStatus,
}

impl View for DeliveryObligation {
    type V = ObligationView;

    open spec fn view(&self) -> ObligationView {
        ObligationView {
            issue_id: self.issue_id,
            recipient_email: self.recipient_email@,
            attempt_count: self.attempt_count,
            status: self.status,
        }
    }
}

/// One send attempt the worker performed, as the drain records it.
pub struct DeliveryEvent {
    pub index: usize,
    pub recipient_email: String,
    pub outcome: SendOutcome,
}

/// The mathematical shape of one delivery event.
#[verifier::ext_equal]
pub struct EventView {
    pub index: int,
    pub recipient_email: Seq<char>,
    pub outcome: SendOutcome,
}

impl View for DeliveryEvent {
    type V = EventView;

    open spec fn view(&self) -> EventView {
        EventView {
            index: self.index as int,
            recipient_email: self.recipient_email@,
            outcome: self.outcome,
        }
    }
}

/// The view of a sequence of recorded events.
pub open spec fn events_view(log: Seq<DeliveryEvent>) -> Seq<EventView> {
    log.map_values(|e: DeliveryEvent| e@)
}

/// An obligation may be claimed when it is pending, or when a worker took it
/// but its lease has lapsed — the claim time plus the lease lies at or before
/// now — so a crashed worker's claim is recoverable.
pub open spec fn claimable(o: ObligationView, now: u64, lease: u64) -> bool {
    match o.status {
        ObligationStatus::Pending => true,
        ObligationStatus::InProgress(t) => t + lease <= now,
        ObligationStatus::Done => false,
        ObligationStatus::FailedPermanent => false,
    }
}

/// The least claimable index, if any: obligations are served in creation
/// order.
pub open spec fn next_claimable(q: Seq<ObligationView>, now: u64, lease: u64) -> Option<int>
    decreases q.len(),
{
    if q.len() == 0 {
        None
    } else if claimable(q[0], now, lease) {
        Some(0)
    } else {
        match next_claimable(q.drop_first(), now, lease) {
            Some(i) => Some(i + 1),
            None => None,
        }
    }
}

/// What `next_claimable` returns: the least claimable index, or nothing when
/// no obligation is claimable.
pub proof fn lemma_next_claimable(q: Seq<ObligationView>, now: u64, lease: u64)
    ensures
        match next_claimable(q, now, lease) {
            Some(i) => 0 <= i < q.len() && claimable(q[i], now, lease) && forall|j: int|
                0 <= j < i ==> !claimable(q[j], now, lease),
            None => forall|j: int| 0 <= j < q.len() ==> !claimable(q[j], now, lease),
        },
    decreases q.len(),
{
    if q.len() > 0 && !claimable(q[0], now, lease) {
        lemma_next_claimable(q.drop_first(), now, lease);
        match next_claimable(q.drop_first(), now, lease) {
            Some(i) => {
                assert(q.drop_first()[i] == q[i + 1]);
                assert(forall|j: int| 1 <= j < i + 1 ==> q.drop_first()[j - 1] == q[j]);
            },
            None => {
                assert(forall|j: int| 1 <= j < q.len() ==> q.drop_first()[j - 1] == q[j]);
            },
        }
    }
}

/// Conversely, the least claimable index is what `next_claimable` returns.
pub proof fn lemma_next_claimable_is_first(q: Seq<ObligationView>, i: int, now: u64, lease: u64)
    requires
        0 <= i < q.len(),
        claimable(q[i], now, lease),
        forall|j: int| 0 <= j < i ==> !claimable(q[j], now, lease),
    ensures
        next_claimable(q, now, lease) == Some(i),
    decreases q.len(),
{
    if i > 0 {
        assert(q.drop_first()[i - 1] == q[i]);
        assert(forall|j: int| 0 <= j < i - 1 ==> q.drop_first()[j] == q[j + 1]);
        lemma_next_claimable_is_first(q.drop_first(), i - 1, now, lease);
    }
}

/// And when nothing is claimable, `next_claimable` finds nothing.
pub proof fn lemma_next_claimable_none(q: Seq<ObligationView>, now: u64, lease: u64)
    requires
        forall|j: int| 0 <= j < q.len() ==> !claimable(q[j], now, lease),
    ensures
        next_claimable(q, now, lease) is None,
    decreases q.len(),
{
    if q.len() > 0 {
        assert(forall|j: int| 0 <= j < q.drop_first().len() ==> q.drop_first()[j] == q[j + 1]);
        lemma_next_claimable_none(q.drop_first(), now, lease);
    }
}

/// The obligation as a claim at time `now` leaves it.
pub open spec fn set_in_progress(o: ObligationView, now: u64) -> ObligationView {
    ObligationView { status: ObligationStatus::InProgress(now), ..o }
}

/// The per-obligation state machine, applied when the worker resolves a
/// claimed obligation: success marks it done; a transient failure sends it
/// back to pending with one more recorded attempt, until the operational
/// maximum demotes it; a permanent failure demotes it at once.
pub open spec fn apply_outcome(
    o: ObligationView,
    outcome: SendOutcome,
    max_retries: u64,
) -> ObligationView {
    match outcome {
        SendOutcome::Sent => ObligationView { status: ObligationStatus::Done, ..o },
        SendOutcome::RetryableError => if o.attempt_count < max_retries {
            ObligationView {
                attempt_count: (o.attempt_count + 1) as u64,
                status: ObligationStatus::Pending,
                ..o
            }
        } else {
            ObligationView { status: ObligationStatus::FailedPermanent, ..o }
        },
        SendOutcome::PermanentError => ObligationView {
            status: ObligationStatus::FailedPermanent,
            ..o
        },
    }
}

/// One worker turn over the whole queue: claim the first claimable
/// obligation, apply the outcome of sending it, and record the event; or
/// nothing, when no obligation is claimable.
pub open spec fn drain_step(
    q: Seq<ObligationView>,
    outcome: SendOutcome,
    now: u64,
    lease: u64,
    max_retries: u64,
) -> (Seq<ObligationView>, Option<EventView>) {
    match next_claimable(q, now, lease) {
        Some(i) => (
            q.update(i, apply_outcome(set_in_progress(q[i], now), outcome, max_retries)),
            Some(EventView { index: i, recipient_email: q[i].recipient_email, outcome }),
        ),
        None => (q, None),
    }
}

/// Worker turns folded over a sequence of send outcomes, stopping early when
/// no obligation is claimable.
pub open spec fn drain_spec(
    q: Seq<ObligationView>,
    outcomes: Seq<SendOutcome>,
    now: u64,
    lease: u64,
    max_retries: u64,
) -> (Seq<ObligationView>, Seq<EventView>)
    decreases outcomes.len(),
{
    if outcomes.len() == 0 {
        (q, Seq::empty())
    } else {
        let step = drain_step(q, outcomes[0], now, lease, max_retries);
        match step.1 {
            None => (q, Seq::empty()),
            Some(e) => {
                let rest = drain_spec(step.0, outcomes.drop_first(), now, lease, max_retries);
                (rest.0, seq![e] + rest.1)
            },
        }
    }
}

/// The durable, ordered queue of delivery obligations.
pub struct DeliveryQueue {
    obligations: Vec<DeliveryObligation>,
}

impl View for DeliveryQueue {
    type V = Seq<ObligationView>;

    closed spec fn view(&self) -> Seq<ObligationView> {
        self.obligations@.map_values(|o: DeliveryObligation| o@)
    }
}

impl DeliveryQueue {
    /// An empty queue.
    pub fn new() -> (r: DeliveryQueue)
        ensures
            r@ == Seq::<ObligationView>::empty(),
    {
        let r = DeliveryQueue { obligations: Vec::new() };
        proof {
            assert(r@ =~= Seq::<ObligationView>::empty());
        }
        r
    }

    /// How many obligations the queue holds, resolved ones included.
    pub fn len(&self) -> (n: usize)
        ensures
            n == self@.len(),
    {
        self.obligations.len()
    }

    /// The obligation at an index.
    pub fn get(&self, index: usize) -> (r: &DeliveryObligation)
        requires
            index < self@.len(),
        ensures
            r@ == self@[index as int],
    {
        &self.obligations[index]
    }

    /// Appends one pending obligation per recipient, all referencing the
    /// given issue: the batch is fixed at creation and the queue never
    /// reorders what it already holds.
    pub fn enqueue_batch(&mut self, issue_id: u64, recipients: &Vec<String>)
        ensures
            final(self)@ == old(self)@ + batch_view(issue_id, recipients@),
    {
        let ghost q0 = self@;
        let mut i: usize = 0;
        while i < recipients.len()
            invariant
                i <= recipients@.len(),
                self@.len() == q0.len() + i,
                self@.subrange(0, q0.len() as int) =~= q0,
                forall|j: int|
                    0 <= j < i ==> self@[q0.len() + j] == batch_view(issue_id, recipients@)[j],
            decreases recipients@.len() - i,
        {
            let ob = DeliveryObligation {
                issue_id,
                recipient_email: recipients[i].clone(),
                attempt_count: 0,
                status: ObligationStatus::Pending,
            };
            let ghost prev = self@;
            self.obligations.push(ob);
            proof {
                assert(self@ =~= prev.push(ob@));
            }
            i += 1;
        }
        proof {
            assert(self@ =~= q0 + batch_view(issue_id, recipients@));
        }
    }

    /// Checks whether the obligation at `index` may be claimed now.
    fn is_claimable(&self, index: usize, now: u64, lease: u64) -> (r: bool)
        requires
            index < self@.len(),
        ensures
            r == claimable(self@[index as int], now, lease),
    {
        match self.obligations[index].status {
            ObligationStatus::Pending => true,
            ObligationStatus::InProgress(t) => lease <= now && t <= now - lease,
            ObligationStatus::Done => false,
            ObligationStatus::FailedPermanent => false,
        }
    }

    /// Claims the first claimable obligation for this worker, marking it in
    /// progress as of `now`. Two workers never hold the same obligation: a
    /// live claim is skipped, not taken over, until its lease lapses. Returns
    /// nothing, promptly, when no work is visible.
    pub fn claim_next(&mut self, now: u64, lease: u64) -> (r: Option<usize>)
        ensures
            match r {
                Some(i) => {
                    &&& i < old(self)@.len()
                    &&& next_claimable(old(self)@, now, lease) == Some(i as int)
                    &&& claimable(old(self)@[i as int], now, lease)
                    &&& final(self)@ == old(self)@.update(
                        i as int,
                        set_in_progress(old(self)@[i as int], now),
                    )
                },
                None => {
                    &&& next_claimable(old(self)@, now, lease) is None
                    &&& final(self)@ == old(self)@
                },
            },
    {
        let n = self.obligations.len();
        let mut i: usize = 0;
        while i < n
            invariant
                i <= n,
                n == self@.len(),
                self@ == old(self)@,
                forall|j: int| 0 <= j < i ==> !claimable(self@[j], now, lease),
            decreases n - i,
        {
            if self.is_claimable(i, now, lease) {
                proof {
                    lemma_next_claimable_is_first(self@, i as int, now, lease);
                }
                let ghost q0 = self@;
                let issue_id = self.obligations[i].issue_id;
                let attempt_count = self.obligations[i].attempt_count;
                let recipient_email = self.obligations[i].recipient_email.clone();
                self.obligations[i] = DeliveryObligation {
                    issue_id,
                    recipient_email,
                    attempt_count,
                    status: ObligationStatus::InProgress(now),
                };
                proof {
                    assert(self@ =~= q0.update(i as int, set_in_progress(q0[i as int], now)));
                }
                return Some(i);
            }
            i += 1;
        }
        proof {
            lemma_next_claimable_none(self@, now, lease);
        }
        None
    }

    /// Resolves the claimed obligation at `index` with what the email
    /// collaborator reported, leaving every other obligation untouched.
    pub fn record_outcome(&mut self, index: usize, outcome: SendOutcome, max_retries: u64)
        requires
            index < old(self)@.len(),
            old(self)@[index as int].status is InProgress,
        ensures
            final(self)@ == old(self)@.update(
                index as int,
                apply_outcome(old(self)@[index as int], outcome, max_retries),
            ),
    {
        let ghost q0 = self@;
        let issue_id = self.obligations[index].issue_id;
        let attempt_count = self.obligations[index].attempt_count;
        let recipient_email = self.obligations[index].recipient_email.clone();
        let (new_count, new_status) = match outcome {
            SendOutcome::Sent => (attempt_count, ObligationStatus::Done),
            SendOutcome::RetryableError => {
                if attempt_count < max_retries {
                    (attempt_count + 1, ObligationStatus::Pending)
                } else {
                    (attempt_count, ObligationStatus::FailedPermanent)
                }
            },
            SendOutcome::PermanentError => (attempt_count, ObligationStatus::FailedPermanent),
        };
        self.obligations[index] = DeliveryObligation {
            issue_id,
            recipient_email,
            attempt_count: new_count,
            status: new_status,
        };
        proof {
            assert(self@ =~= q0.update(
                index as int,
                apply_outcome(q0[index as int], outcome, max_retries),
            ));
        }
    }

    /// One worker turn: claim the first claimable obligation, resolve it with
    /// the given outcome, and report the event; or nothing, when no
    /// obligation is claimable.
    pub fn worker_step(
        &mut self,
        outcome: SendOutcome,
        now: u64,
        lease: u64,
        max_retries: u64,
    ) -> (r: Option<DeliveryEvent>)
        ensures
            match r {
                Some(ev) => {
                    &&& drain_step(old(self)@, outcome, now, lease, max_retries) == (
                        final(self)@,
                        Some(ev@),
                    )
                },
                None => {
                    &&& final(self)@ == old(self)@
                    &&& drain_step(old(self)@, outcome, now, lease, max_retries) == (
                        old(self)@,
                        Option::<EventView>::None,
                    )
                },
            },
    {
        let ghost q0 = self@;
        match self.claim_next(now, lease) {
            Some(i) => {
                proof {
                    assert(self@.len() == self.obligations@.len());
                    assert(self@.len() == q0.len());
                }
                let recipient_email = self.obligations[i].recipient_email.clone();
                self.record_outcome(i, outcome, max_retries);
                proof {
                    assert(self@ =~= q0.update(
                        i as int,
                        apply_outcome(set_in_progress(q0[i as int], now), outcome, max_retries),
                    ));
                }
                Some(DeliveryEvent { index: i, recipient_email, outcome })
            },
            None => None,
        }
    }

    /// The administrative drain: performs one worker turn per listed outcome,
    /// in order, stopping early when no obligation is left claimable, and
    /// reports the send attempts it made. It makes delivery deterministic for
    /// a test or an operator trigger.
    pub fn drain(
        &mut self,
        outcomes: &Vec<SendOutcome>,
        now: u64,
        lease: u64,
        max_retries: u64,
    ) -> (log: Vec<DeliveryEvent>)
        ensures
            ({
                let r = drain_spec(old(self)@, outcomes@, now, lease, max_retries);
                final(self)@ == r.0 && events_view(log@) == r.1
            }),
    {
        let ghost q0 = self@;
        let mut log: Vec<DeliveryEvent> = Vec::new();
        let mut k: usize = 0;
        proof {
            assert(outcomes@.skip(0) =~= outcomes@);
            assert(events_view(log@) =~= Seq::<EventView>::empty());
            assert(Seq::<EventView>::empty() + drain_spec(q0, outcomes@, now, lease, max_retries).1
                =~= drain_spec(q0, outcomes@, now, lease, max_retries).1);
        }
        while k < outcomes.len()
            invariant
                k <= outcomes@.len(),
                q0 == old(self)@,
                ({
                    let whole = drain_spec(q0, outcomes@, now, lease, max_retries);
                    let rest = drain_spec(self@, outcomes@.skip(k as int), now, lease, max_retries);
                    whole.0 == rest.0 && whole.1 == events_view(log@) + rest.1
                }),
            decreases outcomes@.len() - k,
        {
            let ghost pre = self@;
            let ghost remaining = outcomes@.skip(k as int);
            let ghost old_log = log@;
            proof {
                assert(remaining[0] == outcomes@[k as int]);
                assert(remaining.drop_first() =~= outcomes@.skip(k as int + 1));
            }
            match self.worker_step(outcomes[k], now, lease, max_retries) {
                Some(ev) => {
                    log.push(ev);
                    proof {
                        let whole = drain_spec(q0, outcomes@, now, lease, max_retries);
                        let rest_pre = drain_spec(pre, remaining, now, lease, max_retries);
                        let rest_post = drain_spec(
                            self@,
                            outcomes@.skip(k as int + 1),
                            now,
                            lease,
                            max_retries,
                        );
                        assert(drain_step(pre, remaining[0], now, lease, max_retries) == (
                            self@,
                            Some(ev@),
                        ));
                        assert(rest_pre.0 == rest_post.0);
                        assert(rest_pre.1 == seq![ev@] + rest_post.1);
                        assert(events_view(log@) =~= events_view(old_log) + seq![ev@]);
                        assert(events_view(old_log) + (seq![ev@] + rest_post.1) =~= (events_view(
                            old_log,
                        ) + seq![ev@]) + rest_post.1);
                        assert(whole.1 == events_view(log@) + rest_post.1);
                    }
                },
                None => {
                    // One worker turn found nothing claimable, so this and
                    // every later turn leaves the queue as it stands: the
                    // drain is complete.
                    proof {
                        let whole = drain_spec(q0, outcomes@, now, lease, max_retries);
                        let rest = drain_spec(pre, remaining, now, lease, max_retries);
                        assert(drain_step(pre, remaining[0], now, lease, max_retries) == (
                            pre,
                            Option::<EventView>::None,
                        ));
                        assert(rest.0 == pre);
                        assert(rest.1 =~= Seq::<EventView>::empty());
                        assert(events_view(log@) + Seq::<EventView>::empty() =~= events_view(
                            log@,
                        ));
                        assert(whole.1 == events_view(log@));
                    }
                    return log;
                },
            }
            k += 1;
        }
        proof {
            let tail = outcomes@.skip(outcomes@.len() as int);
            assert(tail.len() == 0);
            assert(events_view(log@) + drain_spec(self@, tail, now, lease, max_retries).1
                =~= events_view(log@));
        }
        log
    }
}

/// The obligations a publish with the given recipient emails enqueues: one
/// pending obligation per recipient, in order, each with no attempts yet.
pub open spec fn batch_view_of(issue_id: u64, emails: Seq<Seq<char>>) -> Seq<ObligationView> {
    Seq::new(
        emails.len(),
        |i: int| ObligationView {
            issue_id,
            recipient_email: emails[i],
            attempt_count: 0,
            status: ObligationStatus::Pending,
        },
    )
}

/// The same batch, over the owned strings the queue is handed.
pub open spec fn batch_view(issue_id: u64, recipients: Seq<String>) -> Seq<ObligationView> {
    batch_view_of(issue_id, recipients.map_values(|s: String| s@))
}

/// The outcomes for a run in which every send fails transiently once and
/// then succeeds: one retryable failure followed by one success, per
/// recipient, in claim order.
pub open spec fn alternating_outcomes(n: nat) -> Seq<SendOutcome>
    decreases n,
{
    if n == 0 {
        Seq::empty()
    } else {
        seq![SendOutcome::RetryableError, SendOutcome::Sent] + alternating_outcomes((n - 1) as nat)
    }
}

/// The log such a run writes for the obligations from `d` on: each recipient
/// appears exactly twice, a retryable failure then one success — never two
/// successful sends.
pub open spec fn retry_once_log(q: Seq<ObligationView>, d: int) -> Seq<EventView>
    decreases q.len() - d,
{
    if d < 0 || d >= q.len() {
        Seq::empty()
    } else {
        seq![
            EventView {
                index: d,
                recipient_email: q[d].recipient_email,
                outcome: SendOutcome::RetryableError,
            },
            EventView { index: d, recipient_email: q[d].recipient_email, outcome: SendOutcome::Sent },
        ] + retry_once_log(q, d + 1)
    }
}

/// The positions of `retry_once_log`: for each obligation, one retryable
/// event and then one successful send, and nothing else.
pub proof fn lemma_retry_once_log_shape(q: Seq<ObligationView>, d: int)
    requires
        0 <= d <= q.len(),
    ensures
        retry_once_log(q, d).len() == 2 * (q.len() - d),
        forall|i: int|
            d <= i < q.len() ==> retry_once_log(q, d)[2 * (i - d)] == (EventView {
                index: i,
                recipient_email: q[i].recipient_email,
                outcome: SendOutcome::RetryableError,
            }),
        forall|i: int|
            d <= i < q.len() ==> retry_once_log(q, d)[2 * (i - d) + 1] == (EventView {
                index: i,
                recipient_email: q[i].recipient_email,
                outcome: SendOutcome::Sent,
            }),
    decreases q.len() - d,
{
    if d < q.len() {
        lemma_retry_once_log_shape(q, d + 1);
    }
}

/// The state the retry-once run leaves each obligation in.
pub open spec fn retry_once_final(q: Seq<ObligationView>, d: int) -> Seq<ObligationView> {
    Seq::new(
        q.len(),
        |i: int| if i < d {
            q[i]
        } else {
            ObligationView { attempt_count: 1, status: ObligationStatus::Done, ..q[i] }
        },
    )
}

/// The retry log from `d` on depends only on the recipients from `d` on.
proof fn lemma_retry_once_log_agrees(q1: Seq<ObligationView>, q2: Seq<ObligationView>, d: int)
    requires
        q1.len() == q2.len(),
        forall|i: int|
            d <= i < q1.len() ==> (#[trigger] q1[i]).recipient_email == q2[i].recipient_email,
    ensures
        retry_once_log(q1, d) == retry_once_log(q2, d),
    decreases q1.len() - d,
{
    if 0 <= d < q1.len() {
        lemma_retry_once_log_agrees(q1, q2, d + 1);
    }
}

/// The induction behind the retry law, over a queue whose first `d`
/// obligations are already done with one recorded attempt and whose rest are
/// fresh.
proof fn lemma_drain_retry_once_from(
    q: Seq<ObligationView>,
    d: int,
    now: u64,
    lease: u64,
    max_retries: u64,
)
    requires
        max_retries >= 1,
        0 <= d <= q.len(),
        forall|i: int|
            0 <= i < d ==> (#[trigger] q[i]).status is Done && q[i].attempt_count == 1,
        forall|i: int|
            d <= i < q.len() ==> (#[trigger] q[i]).status is Pending && q[i].attempt_count == 0,
    ensures
        drain_spec(q, alternating_outcomes((q.len() - d) as nat), now, lease, max_retries) == (
            retry_once_final(q, d),
            retry_once_log(q, d),
        ),
    decreases q.len() - d,
{
    let outcomes = alternating_outcomes((q.len() - d) as nat);
    if d == q.len() {
        assert(retry_once_final(q, d) =~= q);
        assert(drain_spec(q, outcomes, now, lease, max_retries) == (
            q,
            Seq::<EventView>::empty(),
        ));
    } else {
        let rest_outcomes = alternating_outcomes((q.len() - d - 1) as nat);
        assert(outcomes == seq![SendOutcome::RetryableError, SendOutcome::Sent] + rest_outcomes);
        assert(outcomes[0] == SendOutcome::RetryableError);
        assert(outcomes.drop_first() =~= seq![SendOutcome::Sent] + rest_outcomes);

        // First turn: the fresh obligation at d is claimed and fails
        // transiently, going back to pending with one recorded attempt.
        lemma_next_claimable_is_first(q, d, now, lease);
        let o1 = apply_outcome(set_in_progress(q[d], now), SendOutcome::RetryableError, max_retries);
        assert(o1 == ObligationView {
            attempt_count: 1,
            status: ObligationStatus::Pending,
            ..q[d]
        });
        let q1 = q.update(d, o1);
        let e1 = EventView {
            index: d,
            recipient_email: q[d].recipient_email,
            outcome: SendOutcome::RetryableError,
        };
        assert(drain_step(q, outcomes[0], now, lease, max_retries) == (q1, Some(e1)));

        // Second turn: the same obligation is claimed again and the retry
        // succeeds.
        let mid_outcomes = outcomes.drop_first();
        assert(mid_outcomes[0] == SendOutcome::Sent);
        assert(mid_outcomes.drop_first() =~= rest_outcomes);
        lemma_next_claimable_is_first(q1, d, now, lease);
        let o2 = apply_outcome(set_in_progress(q1[d], now), SendOutcome::Sent, max_retries);
        assert(o2 == ObligationView { attempt_count: 1, status: ObligationStatus::Done, ..q[d] });
        let q2 = q1.update(d, o2);
        let e2 = EventView {
            index: d,
            recipient_email: q[d].recipient_email,
            outcome: SendOutcome::Sent,
        };
        assert(drain_step(q1, mid_outcomes[0], now, lease, max_retries) == (q2, Some(e2)));

        // The rest of the run is the same problem one obligation further in.
        lemma_drain_retry_once_from(q2, d + 1, now, lease, max_retries);
        assert(alternating_outcomes((q2.len() - (d + 1)) as nat) == rest_outcomes);
        assert(retry_once_final(q2, d + 1) =~= retry_once_final(q, d));
        lemma_retry_once_log_agrees(q2, q, d + 1);
        let rest1 = drain_spec(q1, mid_outcomes, now, lease, max_retries);
        let rest2 = drain_spec(q2, rest_outcomes, now, lease, max_retries);
        assert(drain_spec(q, outcomes, now, lease, max_retries) == (rest1.0, seq![e1] + rest1.1));
        assert(rest1 == (rest2.0, seq![e2] + rest2.1));
        assert(rest2.1 == retry_once_log(q, d + 1));
        assert(seq![e1] + (seq![e2] + retry_once_log(q, d + 1)) =~= retry_once_log(q, d));
    }
}

/// Law (retry without duplication): over a batch of fresh obligations, if
/// the email collaborator fails transiently once per recipient and then
/// succeeds, the drain records exactly one successful send per recipient —
/// never two — and leaves every obligation done with one recorded retry.
pub proof fn lemma_retry_once_then_success(
    q: Seq<ObligationView>,
    now: u64,
    lease: u64,
    max_retries: u64,
)
    requires
        max_retries >= 1,
        forall|i: int|
            0 <= i < q.len() ==> (#[trigger] q[i]).status is Pending && q[i].attempt_count == 0,
    ensures
        ({
            let r = drain_spec(q, alternating_outcomes(q.len()), now, lease, max_retries);
            &&& r.0.len() == q.len()
            &&& forall|i: int|
                0 <= i < q.len() ==> r.0[i] == (ObligationView {
                    attempt_count: 1,
                    status: ObligationStatus::Done,
                    ..q[i]
                })
            &&& r.1.len() == 2 * q.len()
            &&& forall|i: int|
                0 <= i < q.len() ==> r.1[2 * i] == (EventView {
                    index: i,
                    recipient_email: q[i].recipient_email,
                    outcome: SendOutcome::RetryableError,
                })
            &&& forall|i: int|
                0 <= i < q.len() ==> r.1[2 * i + 1] == (EventView {
                    index: i,
                    recipient_email: q[i].recipient_email,
                    outcome: SendOutcome::Sent,
                })
        }),
{
    lemma_drain_retry_once_from(q, 0, now, lease, max_retries);
    lemma_retry_once_log_shape(q, 0);
}

/// The state a terminal outcome leaves a fresh obligation in.
pub open spec fn terminal_state(o: ObligationView, outcome: SendOutcome) -> ObligationView {
    if outcome is Sent {
        ObligationView { status: ObligationStatus::Done, ..o }
    } else {
        ObligationView { status: ObligationStatus::FailedPermanent, ..o }
    }
}

/// The induction behind the isolation law: the first `d` obligations already
/// carry their terminal state, the rest are fresh, and one outcome per
/// remaining obligation is applied in order.
proof fn lemma_drain_terminal_from(
    q: Seq<ObligationView>,
    outcomes: Seq<SendOutcome>,
    d: int,
    now: u64,
    lease: u64,
    max_retries: u64,
)
    requires
        outcomes.len() == q.len(),
        0 <= d <= q.len(),
        forall|k: int|
            0 <= k < outcomes.len() ==> !((#[trigger] outcomes[k]) is RetryableError),
        forall|i: int| 0 <= i < d ==> (#[trigger] q[i]) == terminal_state(q[i], outcomes[i]),
        forall|i: int|
            0 <= i < d ==> ((#[trigger] q[i]).status is Done || q[i].status is FailedPermanent),
        forall|i: int|
            d <= i < q.len() ==> (#[trigger] q[i]).status is Pending,
    ensures
        ({
            let r = drain_spec(q, outcomes.skip(d), now, lease, max_retries);
            &&& r.0 == Seq::new(
                q.len(),
                |i: int| if i < d {
                    q[i]
                } else {
                    terminal_state(q[i], outcomes[i])
                },
            )
            &&& r.1 == Seq::new(
                (q.len() - d) as nat,
                |k: int| EventView {
                    index: d + k,
                    recipient_email: q[d + k].recipient_email,
                    outcome: outcomes[d + k],
                },
            )
        }),
    decreases q.len() - d,
{
    let remaining = outcomes.skip(d);
    if d == q.len() {
        assert(remaining.len() == 0);
        assert(Seq::new(q.len(), |i: int| if i < d { q[i] } else { terminal_state(q[i], outcomes[i]) }) =~= q);
        assert(Seq::new(
            (q.len() - d) as nat,
            |k: int| EventView {
                index: d + k,
                recipient_email: q[d + k].recipient_email,
                outcome: outcomes[d + k],
            },
        ) =~= Seq::<EventView>::empty());
    } else {
        assert(remaining[0] == outcomes[d]);
        assert(remaining.drop_first() =~= outcomes.skip(d + 1));
        lemma_next_claimable_is_first(q, d, now, lease);
        let o1 = apply_outcome(set_in_progress(q[d], now), outcomes[d], max_retries);
        assert(o1 == terminal_state(q[d], outcomes[d]));
        let q1 = q.update(d, o1);
        let e1 = EventView {
            index: d,
            recipient_email: q[d].recipient_email,
            outcome: outcomes[d],
        };
        assert(drain_step(q, remaining[0], now, lease, max_retries) == (q1, Some(e1)));
        lemma_drain_terminal_from(q1, outcomes, d + 1, now, lease, max_retries);
        assert(Seq::new(
            q1.len(),
            |i: int| if i < d + 1 {
                q1[i]
            } else {
                terminal_state(q1[i], outcomes[i])
            },
        ) =~= Seq::new(q.len(), |i: int| if i < d { q[i] } else { terminal_state(q[i], outcomes[i]) }));
        let tail_log = Seq::new(
            (q1.len() - (d + 1)) as nat,
            |k: int| EventView {
                index: d + 1 + k,
                recipient_email: q1[d + 1 + k].recipient_email,
                outcome: outcomes[d + 1 + k],
            },
        );
        assert(drain_spec(q, remaining, now, lease, max_retries).1 == seq![e1] + tail_log);
        assert(seq![e1] + tail_log =~= Seq::new(
            (q.len() - d) as nat,
            |k: int| EventView {
                index: d + k,
                recipient_email: q[d + k].recipient_email,
                outcome: outcomes[d + k],
            },
        ));
    }
}

/// Law (permanent-failure isolation): over a batch of fresh obligations,
/// with one terminal outcome per recipient, every obligation ends in its own
/// outcome's state and every recipient's send is attempted exactly once: one
/// recipient's permanent failure neither blocks nor retries the others.
pub proof fn lemma_permanent_failure_isolated(
    q: Seq<ObligationView>,
    outcomes: Seq<SendOutcome>,
    now: u64,
    lease: u64,
    max_retries: u64,
)
    requires
        outcomes.len() == q.len(),
        forall|k: int|
            0 <= k < outcomes.len() ==> !((#[trigger] outcomes[k]) is RetryableError),
        forall|i: int| 0 <= i < q.len() ==> (#[trigger] q[i]).status is Pending,
    ensures
        ({
            let r = drain_spec(q, outcomes, now, lease, max_retries);
            &&& r.0.len() == q.len()
            &&& forall|i: int|
                0 <= i < q.len() ==> r.0[i] == terminal_state(q[i], outcomes[i])
            &&& r.1.len() == q.len()
            &&& forall|i: int|
                0 <= i < q.len() ==> r.1[i] == (EventView {
                    index: i,
                    recipient_email: q[i].recipient_email,
                    outcome: outcomes[i],
                })
        }),
{
    lemma_drain_terminal_from(q, outcomes, 0, now, lease, max_retries);
    assert(outcomes.skip(0) =~= outcomes);
}

/// Law: the worker never revives a resolved obligation. One already done or
/// permanently failed is never claimed again, so a drain leaves it exactly
/// as it stands and records no further send for it, whatever the outcomes.
pub proof fn lemma_drain_preserves_resolved(
    q: Seq<ObligationView>,
    outcomes: Seq<SendOutcome>,
    now: u64,
    lease: u64,
    max_retries: u64,
    i: int,
)
    requires
        0 <= i < q.len(),
        q[i].status is Done || q[i].status is FailedPermanent,
    ensures
        ({
            let r = drain_spec(q, outcomes, now, lease, max_retries);
            &&& r.0.len() == q.len()
            &&& r.0[i] == q[i]
            &&& forall|k: int| 0 <= k < r.1.len() ==> (#[trigger] r.1[k]).index != i
        }),
    decreases outcomes.len(),
{
    if outcomes.len() > 0 {
        let step = drain_step(q, outcomes[0], now, lease, max_retries);
        match next_claimable(q, now, lease) {
            Some(j) => {
                lemma_next_claimable(q, now, lease);
                assert(!claimable(q[i], now, lease));
                assert(j != i);
                lemma_drain_preserves_resolved(
                    step.0,
                    outcomes.drop_first(),
                    now,
                    lease,
                    max_retries,
                    i,
                );
            },
            None => {},
        }
    }
}

} // verus!
