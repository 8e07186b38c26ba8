//! The publish coordinator: one publish request becomes a single atomic
//! effect. The caller's idempotency key is claimed in the ledger; the issue,
//! its per-recipient delivery obligations, and the resolved ledger entry are
//! written in one unit; a retry of the same key replays the stored response
//! and creates nothing new.

use vstd::prelude::*;
use vstd::string::StrSliceExecFns;
use vstd::string::StringExecFns;

use crate::delivery::{batch_view, batch_view_of, DeliveryQueue, ObligationStatus, ObligationView};
use crate::email::EmailMessage;
use crate::idempotency::{
    valid_idempotency_key, ClaimOutcome, IdempotencyKey, IdempotencyLedger, LedgerEntryView,
};
use crate::issues::{IssueStore, IssueView};
use crate::response::{see_other, see_other_view, ResponseView, StoredResponse};
use crate::subscribers::{
    confirmed_emails, emails_view, SubscriberDirectory, SubscriberView, TokenView,
};

verus! {

/// The publish form as the dashboard posts it.
#[derive(Debug)]
pub struct NewsletterFormData {
    pub title: String,
    pub text: String,
    pub html_text: String,
    pub idempotency_key: String,
}

/// The mathematical shape of the publish form.
#[verifier::ext_equal]
pub struct FormView {
    pub title: Seq<char>,
    pub text: Seq<char>,
    pub html_text: Seq<char>,
    pub idempotency_key: Seq<char>,
}

impl View for NewsletterFormData {
    type V = FormView;

    open spec fn view(&self) -> FormView {
        FormView {
            title: self.title@,
            text: self.text@,
            html_text: self.html_text@,
            idempotency_key: self.idempotency_key@,
        }
    }
}

/// Why a publish submission was rejected before any claim was made. The
/// caller can mend the input and resubmit with the same key.
#[derive(Clone, Copy, PartialEq, Eq, Structural, Debug)]
pub enum SubmitError {
    InvalidIdempotencyKey,
    MissingTitle,
    MissingContent,
}

/// What a publish call came to.
pub enum PublishOutcome {
    /// The response, freshly computed or replayed from the ledger.
    Response(StoredResponse),
    /// Another caller holds the in-flight claim for this key; wait for its
    /// resolution and call again.
    InProgressElsewhere,
}

/// The validation applied before any claim: the key must be well-formed, the
/// title present, and both content renditions present.
pub open spec fn validated(form: FormView) -> Option<SubmitError> {
    if !valid_idempotency_key(form.idempotency_key) {
        Some(SubmitError::InvalidIdempotencyKey)
    } else if form.title.len() == 0 {
        Some(SubmitError::MissingTitle)
    } else if form.text.len() == 0 || form.html_text.len() == 0 {
        Some(SubmitError::MissingContent)
    } else {
        None
    }
}

/// The response a successful publish stores and returns: a redirect back to
/// the newsletter form.
pub open spec fn publish_response() -> ResponseView {
    see_other_view("/admin/newsletter"@)
}

/// The mathematical shape of the whole service.
#[verifier::ext_equal]
pub struct ServiceView {
    pub ledger: Map<(u64, Seq<char>), LedgerEntryView>,
    pub issues: Seq<IssueView>,
    pub obligations: Seq<ObligationView>,
    pub subscribers: Seq<SubscriberView>,
    pub tokens: Seq<TokenView>,
}

/// The abstract result of a publish call.
#[verifier::ext_equal]
pub enum PublishResultView {
    Rejected(SubmitError),
    Response(ResponseView),
    InProgressElsewhere,
}

/// The abstract result the exec result denotes.
pub open spec fn result_view(r: Result<PublishOutcome, SubmitError>) -> PublishResultView {
    match r {
        Err(e) => PublishResultView::Rejected(e),
        Ok(PublishOutcome::Response(resp)) => PublishResultView::Response(resp@),
        Ok(PublishOutcome::InProgressElsewhere) => PublishResultView::InProgressElsewhere,
    }
}

/// The state a fresh publish (one whose key was never seen) leaves behind:
/// one new issue, one pending obligation per confirmed recipient, and the
/// ledger resolved at the key with the stored response — all in one atomic
/// unit. The recipient snapshot is taken now: subscribers confirmed later
/// never receive this issue.
pub open spec fn fresh_publish(
    s: ServiceView,
    actor_id: u64,
    form: FormView,
    now: u64,
) -> ServiceView {
    let issue_id = s.issues.len() as u64;
    ServiceView {
        ledger: s.ledger.insert(
            (actor_id, form.idempotency_key),
            LedgerEntryView { claimed_at: now, response: Some(publish_response()) },
        ),
        issues: s.issues.push(
            IssueView {
                issue_id,
                title: form.title,
                text_content: form.text,
                html_content: form.html_text,
                published_at: now,
            },
        ),
        obligations: s.obligations + batch_view_of(issue_id, confirmed_emails(s.subscribers)),
        subscribers: s.subscribers,
        tokens: s.tokens,
    }
}

/// What one publish call does to the service: a rejected form changes
/// nothing; a resolved key replays its stored response and changes nothing;
/// an in-flight key changes nothing and asks the caller to wait; a fresh key
/// performs the atomic publish and returns the new response.
pub open spec fn publish_transition(
    s: ServiceView,
    actor_id: u64,
    form: FormView,
    now: u64,
) -> (ServiceView, PublishResultView) {
    match validated(form) {
        Some(e) => (s, PublishResultView::Rejected(e)),
        None => {
            let key = (actor_id, form.idempotency_key);
            if s.ledger.contains_key(key) {
                match s.ledger[key].response {
                    Some(resp) => (s, PublishResultView::Response(resp)),
                    None => (s, PublishResultView::InProgressElsewhere),
                }
            } else {
                (
                    fresh_publish(s, actor_id, form, now),
                    PublishResultView::Response(publish_response()),
                )
            }
        },
    }
}

/// The newsletter service: the idempotency ledger, the issue store, the
/// delivery obligation queue, and the subscriber directory.
pub struct NewsletterService {
    pub ledger: IdempotencyLedger,
    pub issue_store: IssueStore,
    pub delivery_queue: DeliveryQueue,
    pub subscribers: SubscriberDirectory,
}

impl View for NewsletterService {
    type V = ServiceView;

    open spec fn view(&self) -> ServiceView {
        ServiceView {
            ledger: self.ledger@,
            issues: self.issue_store@,
            obligations: self.delivery_queue@,
            subscribers: self.subscribers@.subscribers,
            tokens: self.subscribers@.tokens,
        }
    }
}

impl NewsletterService {
    /// The parts are well formed and every obligation references a stored
    /// issue.
    pub open spec fn wf(&self) -> bool {
        &&& self.ledger.wf()
        &&& self.issue_store.wf()
        &&& self.subscribers.wf()
        &&& forall|i: int|
            0 <= i < self@.obligations.len() ==> (#[trigger] self@.obligations[i]).issue_id
                < self@.issues.len()
    }

    /// A service with no history.
    pub fn new() -> (r: NewsletterService)
        ensures
            r.wf(),
            r@.ledger == Map::<(u64, Seq<char>), LedgerEntryView>::empty(),
            r@.issues == Seq::<IssueView>::empty(),
            r@.obligations == Seq::<ObligationView>::empty(),
            r@.subscribers == Seq::<SubscriberView>::empty(),
            r@.tokens == Seq::<TokenView>::empty(),
    {
        NewsletterService {
            ledger: IdempotencyLedger::new(),
            issue_store: IssueStore::new(),
            delivery_queue: DeliveryQueue::new(),
            subscribers: SubscriberDirectory::new(),
        }
    }

    /// Turns "publish this issue under key K" into a single atomic effect,
    /// replayed on retry. Validation failures are rejected before any claim
    /// is consumed. A key already resolved replays its stored response with
    /// no new issue, no new obligations and no new sends; a key in flight
    /// elsewhere is reported so the caller waits; a fresh key writes the
    /// issue, the fan-out and the resolved ledger entry in one unit and
    /// returns the redirect response.
    pub fn send_and_submit_newsletter(
        &mut self,
        user_id: u64,
        form: &NewsletterFormData,
        now: u64,
    ) -> (r: Result<PublishOutcome, SubmitError>)
        requires
            old(self).wf(),
            old(self)@.issues.len() < u64::MAX,
        ensures
            final(self).wf(),
            final(self)@ == publish_transition(old(self)@, user_id, form@, now).0,
            result_view(r) == publish_transition(old(self)@, user_id, form@, now).1,
    {
        let key = match IdempotencyKey::parse(String::from_str(form.idempotency_key.as_str())) {
            Ok(key) => key,
            Err(_) => {
                return Err(SubmitError::InvalidIdempotencyKey);
            },
        };
        if form.title.as_str().is_empty() {
            return Err(SubmitError::MissingTitle);
        }
        if form.text.as_str().is_empty() || form.html_text.as_str().is_empty() {
            return Err(SubmitError::MissingContent);
        }
        match self.ledger.claim(user_id, &key, now) {
            ClaimOutcome::AlreadyResolved(resp) => Ok(PublishOutcome::Response(resp)),
            ClaimOutcome::InProgressElsewhere => Ok(PublishOutcome::InProgressElsewhere),
            ClaimOutcome::Claimed(token) => {
                let ghost s0 = old(self)@;
                let issue_id = self.issue_store.insert_newsletter_issue(
                    form.title.as_str(),
                    form.text.as_str(),
                    form.html_text.as_str(),
                    now,
                );
                self.enqueue_delivery_tasks(issue_id);
                let response = see_other("/admin/newsletter");
                let replay = response.duplicate();
                self.ledger.resolve(token, response);
                proof {
                    assert(self@.ledger =~= fresh_publish(s0, user_id, form@, now).ledger);
                    assert(self@ =~= fresh_publish(s0, user_id, form@, now));
                }
                Ok(PublishOutcome::Response(replay))
            },
        }
    }

    /// Enqueues the delivery fan-out for a stored issue: one pending
    /// obligation per currently confirmed recipient, in sign-up order. The
    /// snapshot is taken now — subscribers confirmed afterwards never
    /// receive this issue.
    pub fn enqueue_delivery_tasks(&mut self, issue_id: u64)
        requires
            old(self).wf(),
            issue_id < old(self)@.issues.len(),
        ensures
            final(self).wf(),
            final(self)@ == (ServiceView {
                obligations: old(self)@.obligations + batch_view_of(
                    issue_id,
                    confirmed_emails(old(self)@.subscribers),
                ),
                ..old(self)@
            }),
    {
        let ghost s0 = self@;
        let recipients = self.subscribers.confirmed_recipients();
        self.delivery_queue.enqueue_batch(issue_id, &recipients);
        proof {
            assert(batch_view(issue_id, recipients@) == batch_view_of(
                issue_id,
                confirmed_emails(s0.subscribers),
            )) by {
                assert(emails_view(recipients@) == confirmed_emails(s0.subscribers));
            }
            assert(self@ =~= (ServiceView {
                obligations: s0.obligations + batch_view_of(
                    issue_id,
                    confirmed_emails(s0.subscribers),
                ),
                ..s0
            }));
            assert forall|i: int| 0 <= i < self@.obligations.len() implies (
            #[trigger] self@.obligations[i]).issue_id < self@.issues.len() by {
                if i >= s0.obligations.len() {
                    assert(self@.obligations[i] == batch_view_of(
                        issue_id,
                        confirmed_emails(s0.subscribers),
                    )[i - s0.obligations.len()]);
                }
            }
        }
    }

    /// The email that delivers the issue an obligation references to its
    /// recipient: the issue's title as subject and its two content
    /// renditions as body.
    pub fn delivery_email(&self, index: usize) -> (r: EmailMessage)
        requires
            self.wf(),
            index < self@.obligations.len(),
        ensures
            ({
                let ob = self@.obligations[index as int];
                let issue = self@.issues[ob.issue_id as int];
                &&& r@.to == ob.recipient_email
                &&& r@.subject == issue.title
                &&& r@.html_body == issue.html_content
                &&& r@.text_body == issue.text_content
            }),
    {
        let ob = self.delivery_queue.get(index);
        match self.issue_store.get(ob.issue_id) {
            Some(issue) => EmailMessage {
                to: String::from_str(ob.recipient_email.as_str()),
                subject: String::from_str(issue.title.as_str()),
                html_body: String::from_str(issue.html_content.as_str()),
                text_body: String::from_str(issue.text_content.as_str()),
            },
            None => {
                proof {
                    assert(false);
                }
                vstd::pervasive::unreached()
            },
        }
    }
}

/// Law (idempotence): publishing twice with the same actor and key has the
/// same externally observable effect as publishing once. The first call
/// performs the one fresh publish; the second returns the identical response
/// and changes nothing, so exactly one issue and one obligation batch exist.
pub proof fn lemma_publish_idempotent(
    s: ServiceView,
    actor_id: u64,
    form: FormView,
    now1: u64,
    now2: u64,
)
    requires
        validated(form) is None,
        !s.ledger.contains_key((actor_id, form.idempotency_key)),
    ensures
        ({
            let first = publish_transition(s, actor_id, form, now1);
            let second = publish_transition(first.0, actor_id, form, now2);
            &&& second.0 == first.0
            &&& second.1 == first.1
            &&& first.1 == PublishResultView::Response(publish_response())
            &&& first.0.issues.len() == s.issues.len() + 1
            &&& first.0.obligations == s.obligations + batch_view_of(
                s.issues.len() as u64,
                confirmed_emails(s.subscribers),
            )
        }),
{
}

/// Law (concurrency safety): two simultaneous publish calls with the same
/// actor and key serialize; their effects never partially interleave. While
/// the first call's claim is in flight, the second changes nothing and is
/// told to wait; once the first resolves, the second replays the identical
/// response and changes nothing — so both callers receive the same response
/// and exactly one issue exists.
pub proof fn lemma_publish_concurrent_duplicates(
    s: ServiceView,
    actor_id: u64,
    form: FormView,
    now1: u64,
    now2: u64,
)
    requires
        validated(form) is None,
        !s.ledger.contains_key((actor_id, form.idempotency_key)),
    ensures
        ({
            let first = publish_transition(s, actor_id, form, now1);
            // the state the second caller sees while the first claim is
            // unresolved
            let mid = ServiceView {
                ledger: s.ledger.insert(
                    (actor_id, form.idempotency_key),
                    LedgerEntryView { claimed_at: now1, response: None },
                ),
                ..s
            };
            &&& publish_transition(mid, actor_id, form, now2) == (
                mid,
                PublishResultView::InProgressElsewhere,
            )
            &&& publish_transition(first.0, actor_id, form, now2) == (first.0, first.1)
            &&& first.1 == PublishResultView::Response(publish_response())
            &&& first.0.issues.len() == s.issues.len() + 1
        }),
{
}

/// Law (fan-out correctness): a successful fresh publish with N confirmed
/// recipients creates exactly N new obligations, all pending, all referencing
/// the new issue, with the obligations that were already queued untouched.
pub proof fn lemma_publish_fan_out(s: ServiceView, actor_id: u64, form: FormView, now: u64)
    requires
        validated(form) is None,
        !s.ledger.contains_key((actor_id, form.idempotency_key)),
    ensures
        ({
            let s1 = publish_transition(s, actor_id, form, now).0;
            let emails = confirmed_emails(s.subscribers);
            let issue_id = s.issues.len() as u64;
            &&& s1.issues.len() == s.issues.len() + 1
            &&& s1.issues[s.issues.len() as int] == (IssueView {
                issue_id,
                title: form.title,
                text_content: form.text,
                html_content: form.html_text,
                published_at: now,
            })
            &&& s1.obligations.len() == s.obligations.len() + emails.len()
            &&& forall|i: int|
                0 <= i < s.obligations.len() ==> #[trigger] s1.obligations[i] == s.obligations[i]
            &&& forall|k: int|
                0 <= k < emails.len() ==> #[trigger] s1.obligations[s.obligations.len() + k] == (
                ObligationView {
                    issue_id,
                    recipient_email: emails[k],
                    attempt_count: 0,
                    status: ObligationStatus::Pending,
                })
        }),
{
}

} // verus!
