use zero_to_production::delivery::{ObligationStatus, SendOutcome};
use zero_to_production::publish::{
    NewsletterFormData, NewsletterService, PublishOutcome, SubmitError,
};
use zero_to_production::idempotency::{ClaimOutcome, IdempotencyKey};
use zero_to_production::response::see_other;
use zero_to_production::subscribers::FormData;

const NOW: u64 = 1_000;
const LEASE: u64 = 30;
const MAX_RETRIES: u64 = 3;

fn form(key: &str) -> NewsletterFormData {
    NewsletterFormData {
        title: "Newsletter title".to_string(),
        text: "Newsletter body as plain text".to_string(),
        html_text: "<p>Newsletter body as HTML</p>".to_string(),
        idempotency_key: key.to_string(),
    }
}

fn service_with_confirmed(recipients: &[&str]) -> NewsletterService {
    let mut svc = NewsletterService::new();
    for (k, email) in recipients.iter().enumerate() {
        let receipt = svc
            .subscribers
            .subscribe(
                FormData { email: email.to_string(), name: format!("Reader {}", k) },
                NOW,
            )
            .unwrap();
        let token = receipt.subscription_token.as_str();
        let id = svc.subscribers.get_subscriber_id_from_token(token).unwrap();
        svc.subscribers.confirm_subscriber(id);
    }
    svc
}

fn response_of(outcome: PublishOutcome) -> zero_to_production::response::StoredResponse {
    match outcome {
        PublishOutcome::Response(resp) => resp,
        PublishOutcome::InProgressElsewhere => panic!("expected a response"),
    }
}

#[test]
fn publish_with_no_recipients_creates_issue_and_no_obligations() {
    let mut svc = NewsletterService::new();
    let r = svc.send_and_submit_newsletter(1, &form("abc"), NOW).unwrap();
    let resp = response_of(r);
    assert_eq!(resp.status, 303);
    assert_eq!(svc.issue_store.len(), 1);
    assert_eq!(svc.delivery_queue.len(), 0);
    // the worker drain is a no-op
    let log = svc.delivery_queue.drain(&vec![SendOutcome::Sent; 4], NOW, LEASE, MAX_RETRIES);
    assert_eq!(log.len(), 0);
    assert_eq!(svc.delivery_queue.len(), 0);
}

#[test]
fn publish_with_two_recipients_drains_to_two_sends() {
    let mut svc = service_with_confirmed(&["a@mail.com", "b@mail.com"]);
    svc.send_and_submit_newsletter(1, &form("abc"), NOW).unwrap();
    assert_eq!(svc.issue_store.len(), 1);
    assert_eq!(svc.delivery_queue.len(), 2);

    let log = svc.delivery_queue.drain(&vec![SendOutcome::Sent; 8], NOW, LEASE, MAX_RETRIES);
    assert_eq!(log.len(), 2, "exactly two sends recorded");
    assert_eq!(log[0].recipient_email, "a@mail.com");
    assert_eq!(log[1].recipient_email, "b@mail.com");
    for i in 0..2 {
        assert!(matches!(svc.delivery_queue.get(i).status, ObligationStatus::Done));
    }
}

#[test]
fn duplicate_publish_replays_identical_response() {
    // the second submission arrives before any delivery has happened — as
    // when the first send is slow — and must observe the very same response
    let mut svc = service_with_confirmed(&["a@mail.com"]);
    let first = response_of(svc.send_and_submit_newsletter(1, &form("abc"), NOW).unwrap());
    let second = response_of(svc.send_and_submit_newsletter(1, &form("abc"), NOW + 5).unwrap());
    assert_eq!(first.status, second.status);
    assert_eq!(first.body, second.body);
    assert_eq!(first.headers.len(), second.headers.len());
    for (h1, h2) in first.headers.iter().zip(second.headers.iter()) {
        assert_eq!(h1.name, h2.name);
        assert_eq!(h1.value, h2.value);
    }
    // only one issue and one obligation batch exist
    assert_eq!(svc.issue_store.len(), 1);
    assert_eq!(svc.delivery_queue.len(), 1);

    let log = svc.delivery_queue.drain(&vec![SendOutcome::Sent; 4], NOW, LEASE, MAX_RETRIES);
    assert_eq!(log.len(), 1);
}

#[test]
fn different_keys_publish_two_issues() {
    let mut svc = service_with_confirmed(&["a@mail.com"]);
    svc.send_and_submit_newsletter(1, &form("abc"), NOW).unwrap();
    svc.send_and_submit_newsletter(1, &form("def"), NOW + 1).unwrap();
    assert_eq!(svc.issue_store.len(), 2);
    assert_eq!(svc.delivery_queue.len(), 2);
}

#[test]
fn transient_failures_do_not_cause_duplicate_deliveries_on_retries() {
    let mut svc = service_with_confirmed(&["a@mail.com", "b@mail.com"]);
    svc.send_and_submit_newsletter(1, &form("abc"), NOW).unwrap();

    // each recipient fails transiently once, then succeeds
    let outcomes = vec![
        SendOutcome::RetryableError,
        SendOutcome::Sent,
        SendOutcome::RetryableError,
        SendOutcome::Sent,
        SendOutcome::Sent,
        SendOutcome::Sent,
    ];
    let log = svc.delivery_queue.drain(&outcomes, NOW, LEASE, MAX_RETRIES);
    assert_eq!(log.len(), 4, "two failed attempts and two successful sends, never more");
    let successes: Vec<usize> = log
        .iter()
        .filter(|e| matches!(e.outcome, SendOutcome::Sent))
        .map(|e| e.index)
        .collect();
    assert_eq!(successes, vec![0, 1], "each recipient delivered exactly once");
    for i in 0..2 {
        assert!(matches!(svc.delivery_queue.get(i).status, ObligationStatus::Done));
        assert_eq!(svc.delivery_queue.get(i).attempt_count, 1);
    }
}

#[test]
fn permanent_failure_does_not_block_other_recipients() {
    let mut svc = service_with_confirmed(&["a@mail.com", "b@mail.com", "c@mail.com"]);
    svc.send_and_submit_newsletter(1, &form("abc"), NOW).unwrap();

    let outcomes = vec![SendOutcome::Sent, SendOutcome::PermanentError, SendOutcome::Sent];
    let log = svc.delivery_queue.drain(&outcomes, NOW, LEASE, MAX_RETRIES);
    assert_eq!(log.len(), 3);
    assert!(matches!(svc.delivery_queue.get(0).status, ObligationStatus::Done));
    assert!(matches!(svc.delivery_queue.get(1).status, ObligationStatus::FailedPermanent));
    assert!(matches!(svc.delivery_queue.get(2).status, ObligationStatus::Done));

    // the permanently failed obligation is never retried
    let log = svc.delivery_queue.drain(&vec![SendOutcome::Sent; 4], NOW, LEASE, MAX_RETRIES);
    assert_eq!(log.len(), 0);
    assert!(matches!(svc.delivery_queue.get(1).status, ObligationStatus::FailedPermanent));
}

#[test]
fn bounded_retry_demotes_to_failed_permanent() {
    let mut svc = service_with_confirmed(&["a@mail.com"]);
    svc.send_and_submit_newsletter(1, &form("abc"), NOW).unwrap();
    // with a maximum of one recorded retry, the second transient failure is
    // demoted instead of retried again
    let outcomes = vec![
        SendOutcome::RetryableError,
        SendOutcome::RetryableError,
        SendOutcome::Sent,
    ];
    let log = svc.delivery_queue.drain(&outcomes, NOW, LEASE, 1);
    assert_eq!(log.len(), 2);
    assert!(matches!(svc.delivery_queue.get(0).status, ObligationStatus::FailedPermanent));
}

#[test]
fn empty_idempotency_key_is_rejected() {
    let mut svc = NewsletterService::new();
    let r = svc.send_and_submit_newsletter(1, &form(""), NOW);
    assert!(matches!(r, Err(SubmitError::InvalidIdempotencyKey)));
    assert_eq!(svc.issue_store.len(), 0);
    // the key was not consumed: a corrected submission with the same key works
    let r = svc.send_and_submit_newsletter(1, &form("abc"), NOW);
    assert!(r.is_ok());
}

#[test]
fn overlong_idempotency_key_is_rejected() {
    let mut svc = NewsletterService::new();
    let key = "k".repeat(51);
    let r = svc.send_and_submit_newsletter(1, &form(&key), NOW);
    assert!(matches!(r, Err(SubmitError::InvalidIdempotencyKey)));
    assert_eq!(svc.issue_store.len(), 0);
}

#[test]
fn missing_title_is_rejected_before_any_claim() {
    let mut svc = NewsletterService::new();
    let mut f = form("abc");
    f.title = String::new();
    let r = svc.send_and_submit_newsletter(1, &f, NOW);
    assert!(matches!(r, Err(SubmitError::MissingTitle)));
    // the ledger holds no claim: the same key still publishes
    let r = svc.send_and_submit_newsletter(1, &form("abc"), NOW);
    assert!(r.is_ok());
    assert_eq!(svc.issue_store.len(), 1);
}

#[test]
fn missing_content_is_rejected_before_any_claim() {
    let mut svc = NewsletterService::new();
    let mut f = form("abc");
    f.html_text = String::new();
    let r = svc.send_and_submit_newsletter(1, &f, NOW);
    assert!(matches!(r, Err(SubmitError::MissingContent)));
    let mut f = form("abc");
    f.text = String::new();
    let r = svc.send_and_submit_newsletter(1, &f, NOW);
    assert!(matches!(r, Err(SubmitError::MissingContent)));
    assert_eq!(svc.issue_store.len(), 0);
}

#[test]
fn publishes_under_different_actors_are_independent() {
    let mut svc = service_with_confirmed(&["a@mail.com"]);
    svc.send_and_submit_newsletter(1, &form("abc"), NOW).unwrap();
    svc.send_and_submit_newsletter(2, &form("abc"), NOW).unwrap();
    assert_eq!(svc.issue_store.len(), 2, "the key is scoped per actor");
}

#[test]
fn delivery_email_carries_the_issue_content() {
    let mut svc = service_with_confirmed(&["a@mail.com"]);
    svc.send_and_submit_newsletter(1, &form("abc"), NOW).unwrap();
    let email = svc.delivery_email(0);
    assert_eq!(email.to, "a@mail.com");
    assert_eq!(email.subject, "Newsletter title");
    assert_eq!(email.html_body, "<p>Newsletter body as HTML</p>");
    assert_eq!(email.text_body, "Newsletter body as plain text");
}

#[test]
fn workers_never_claim_the_same_obligation() {
    let mut svc = service_with_confirmed(&["a@mail.com", "b@mail.com"]);
    svc.send_and_submit_newsletter(1, &form("abc"), NOW).unwrap();
    let first = svc.delivery_queue.claim_next(NOW, LEASE);
    let second = svc.delivery_queue.claim_next(NOW, LEASE);
    let third = svc.delivery_queue.claim_next(NOW, LEASE);
    assert_eq!(first, Some(0));
    assert_eq!(second, Some(1), "a live claim is skipped, not taken over");
    assert_eq!(third, None, "no claimable work is reported promptly");
}

#[test]
fn lapsed_lease_makes_a_claim_recoverable() {
    let mut svc = service_with_confirmed(&["a@mail.com"]);
    svc.send_and_submit_newsletter(1, &form("abc"), NOW).unwrap();
    assert_eq!(svc.delivery_queue.claim_next(NOW, LEASE), Some(0));
    // while the lease lives, the obligation stays with its worker
    assert_eq!(svc.delivery_queue.claim_next(NOW + LEASE - 1, LEASE), None);
    // after the lease lapses, a crashed worker's claim is taken over
    assert_eq!(svc.delivery_queue.claim_next(NOW + LEASE, LEASE), Some(0));
    svc.delivery_queue.record_outcome(0, SendOutcome::Sent, MAX_RETRIES);
    assert!(matches!(svc.delivery_queue.get(0).status, ObligationStatus::Done));
}

#[test]
fn concurrent_duplicate_waits_then_replays() {
    let mut svc = service_with_confirmed(&["a@mail.com"]);
    // drive the first caller's claim by hand, as if its transaction were
    // still open when the duplicate arrives
    let key = IdempotencyKey::parse("abc".to_string()).unwrap();
    let token = match svc.ledger.claim(1, &key, NOW) {
        ClaimOutcome::Claimed(token) => token,
        _ => panic!("a never-seen key must be claimed"),
    };
    // the duplicate submission is told to wait, and changes nothing
    let r = svc.send_and_submit_newsletter(1, &form("abc"), NOW + 1).unwrap();
    assert!(matches!(r, PublishOutcome::InProgressElsewhere));
    assert_eq!(svc.issue_store.len(), 0);
    // the first caller resolves; the waiter's retry replays that response
    svc.ledger.resolve(token, see_other("/admin/newsletter"));
    let replay = response_of(svc.send_and_submit_newsletter(1, &form("abc"), NOW + 2).unwrap());
    assert_eq!(replay.status, 303);
    assert_eq!(replay.headers[0].value, "/admin/newsletter");
    assert_eq!(svc.issue_store.len(), 0, "the replay created nothing new");
}
