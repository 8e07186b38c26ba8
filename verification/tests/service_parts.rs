use base64::Engine;

use zero_to_production::auth::{basic_authorisation, BasicAuthError};
use zero_to_production::config::{EmailClientSettings, Environment};
use zero_to_production::email::send_confirmation_email;
use zero_to_production::domain::new_subscriber::NewSubscriber;
use zero_to_production::idempotency::{ClaimOutcome, IdempotencyKey, IdempotencyLedger};
use zero_to_production::newsletters::{get_confirmed_subscribers, publish_newsletter, PublishError};
use zero_to_production::password::{
    check_if_password_length_is_greater_than_12, check_if_password_match,
};
use zero_to_production::publish::NewsletterFormData;
use zero_to_production::response::{health_check, see_other, HeaderPair, StoredResponse};
use zero_to_production::subscribers::{
    generate_subscription_token, FormData, Parameters, SubscribeConfirmError, SubscriberDirectory,
    SubscriberError, StoreTokenError,
};

fn a_response(status: u16, body: &str) -> StoredResponse {
    StoredResponse {
        status,
        headers: vec![HeaderPair { name: "X-Tag".to_string(), value: "v1".to_string() }],
        body: body.to_string(),
    }
}

#[test]
fn ledger_claim_resolve_and_replay() {
    let mut ledger = IdempotencyLedger::new();
    let key = IdempotencyKey::parse("abc".to_string()).unwrap();

    let token = match ledger.claim(1, &key, 10) {
        ClaimOutcome::Claimed(token) => token,
        _ => panic!("a never-seen key must be claimed"),
    };
    match ledger.claim(1, &key, 11) {
        ClaimOutcome::InProgressElsewhere => {},
        _ => panic!("an unresolved claim must be reported as in progress"),
    }

    ledger.resolve(token, a_response(200, "done"));
    match ledger.claim(1, &key, 12) {
        ClaimOutcome::AlreadyResolved(resp) => {
            assert_eq!(resp.status, 200);
            assert_eq!(resp.body, "done");
            assert_eq!(resp.headers.len(), 1);
            assert_eq!(resp.headers[0].name, "X-Tag");
            assert_eq!(resp.headers[0].value, "v1");
        },
        _ => panic!("a resolved key must replay its response"),
    }

    let saved = ledger.saved_response(1, &key).unwrap();
    assert_eq!(saved.status, 200);
    // another actor's identical key is a different ledger entry
    assert!(matches!(ledger.claim(2, &key, 13), ClaimOutcome::Claimed(_)));
}

#[test]
fn ledger_abort_rolls_the_claim_back() {
    let mut ledger = IdempotencyLedger::new();
    let key = IdempotencyKey::parse("abc".to_string()).unwrap();
    let token = match ledger.claim(1, &key, 10) {
        ClaimOutcome::Claimed(token) => token,
        _ => panic!("a never-seen key must be claimed"),
    };
    ledger.abort(token);
    // after the rollback the key reads as never seen and may be reclaimed
    assert!(ledger.saved_response(1, &key).is_none());
    assert!(matches!(ledger.claim(1, &key, 20), ClaimOutcome::Claimed(_)));
}

#[test]
fn idempotency_key_validation_messages() {
    assert!(IdempotencyKey::parse("abc".to_string()).is_ok());
    assert!(IdempotencyKey::parse("k".repeat(50)).is_ok());
    assert_eq!(
        IdempotencyKey::parse("".to_string()).unwrap_err(),
        "The idempotency key cannot be empty"
    );
    assert_eq!(
        IdempotencyKey::parse("k".repeat(51)).unwrap_err(),
        "The idempotency key must hold at most 50 characters"
    );
}

#[test]
fn see_other_is_a_redirect() {
    let resp = see_other("/admin/newsletter");
    assert_eq!(resp.status, 303);
    assert_eq!(resp.headers.len(), 1);
    assert_eq!(resp.headers[0].name, "Location");
    assert_eq!(resp.headers[0].value, "/admin/newsletter");
    assert_eq!(resp.body, "");
}

#[test]
fn duplicate_copies_a_response_exactly() {
    let resp = a_response(418, "tea");
    let copy = resp.duplicate();
    assert_eq!(copy.status, 418);
    assert_eq!(copy.body, "tea");
    assert_eq!(copy.headers.len(), 1);
    assert_eq!(copy.headers[0].name, "X-Tag");
    assert_eq!(copy.headers[0].value, "v1");
}

#[test]
fn publish_error_responses() {
    let auth = PublishError::AuthError("no user".to_string());
    assert_eq!(auth.status_code(), 401);
    let resp = auth.error_response();
    assert_eq!(resp.status, 401);
    assert_eq!(resp.headers.len(), 1);
    assert_eq!(resp.headers[0].name, "WWW-Authenticate");
    assert_eq!(resp.headers[0].value, "Basic realm=\"publish\"");

    let unexpected = PublishError::UnexpectedError("boom".to_string());
    assert_eq!(unexpected.status_code(), 500);
    let resp = unexpected.error_response();
    assert_eq!(resp.status, 500);
    assert_eq!(resp.headers.len(), 0);
}

#[test]
fn error_status_codes() {
    assert_eq!(SubscriberError::ValidationError("x".to_string()).status_code(), 400);
    assert_eq!(SubscriberError::UnexpectedError("x".to_string()).status_code(), 500);
    assert_eq!(SubscribeConfirmError::UnknownToken.status_code(), 401);
    assert_eq!(SubscribeConfirmError::UnexpectedError("x".to_string()).status_code(), 500);
    assert!(StoreTokenError.message().contains("subscription token"));
}

#[test]
fn basic_authorisation_extracts_credentials() {
    let header = format!(
        "Basic {}",
        base64::engine::general_purpose::STANDARD.encode("user:pass")
    );
    let credentials = basic_authorisation(&header).unwrap();
    assert_eq!(credentials.username, "user");
    assert_eq!(credentials.password, "pass");
}

#[test]
fn basic_authorisation_splits_at_the_first_colon() {
    let header = format!(
        "Basic {}",
        base64::engine::general_purpose::STANDARD.encode("user:pa:ss")
    );
    let credentials = basic_authorisation(&header).unwrap();
    assert_eq!(credentials.username, "user");
    assert_eq!(credentials.password, "pa:ss");
}

#[test]
fn basic_authorisation_reports_each_malformed_layer() {
    assert!(matches!(
        basic_authorisation("Bearer abc"),
        Err(BasicAuthError::InvalidScheme)
    ));
    assert!(matches!(
        basic_authorisation("Basic !!!"),
        Err(BasicAuthError::InvalidBase64)
    ));
    let invalid_utf8 = format!(
        "Basic {}",
        base64::engine::general_purpose::STANDARD.encode([0xffu8, 0xfe])
    );
    assert!(matches!(
        basic_authorisation(&invalid_utf8),
        Err(BasicAuthError::InvalidUtf8)
    ));
    let no_colon = format!(
        "Basic {}",
        base64::engine::general_purpose::STANDARD.encode("nocolon")
    );
    assert!(matches!(
        basic_authorisation(&no_colon),
        Err(BasicAuthError::MissingPassword)
    ));
}

#[test]
fn subscription_tokens_are_25_alphanumeric_characters() {
    let token = generate_subscription_token();
    assert_eq!(token.chars().count(), 25);
    assert!(token.chars().all(|c| c.is_ascii_alphanumeric()));
    let other = generate_subscription_token();
    assert_ne!(token, other, "two fresh tokens almost surely differ");
}

#[test]
fn subscribe_persists_the_new_subscriber() {
    let mut directory = SubscriberDirectory::new();
    let receipt = directory
        .subscribe(
            FormData { email: "ursula_le_guin@mail.com".to_string(), name: "le guin".to_string() },
            50,
        )
        .unwrap();
    let row = directory.get(receipt.subscriber_id).unwrap();
    assert_eq!(row.email, "ursula_le_guin@mail.com");
    assert_eq!(row.name, "le guin");
    // a fresh sign-up is pending until the confirmation link is followed
    assert_eq!(directory.confirmed_recipients().len(), 0);
}

#[test]
fn subscribe_rejects_invalid_form_data() {
    let mut directory = SubscriberDirectory::new();
    let r = directory.subscribe(
        FormData { email: "not-an-email".to_string(), name: "le guin".to_string() },
        50,
    );
    assert!(matches!(r, Err(SubscriberError::ValidationError(_))));
    let r = directory.subscribe(
        FormData { email: "a@mail.com".to_string(), name: " ".to_string() },
        50,
    );
    assert!(matches!(r, Err(SubscriberError::ValidationError(_))));
    assert_eq!(directory.len(), 0);
}

#[test]
fn subscribe_with_token_refuses_a_reused_token() {
    let mut directory = SubscriberDirectory::new();
    directory
        .subscribe_with_token(
            FormData { email: "a@mail.com".to_string(), name: "A".to_string() },
            "token-one".to_string(),
            50,
        )
        .unwrap();
    let r = directory.subscribe_with_token(
        FormData { email: "b@mail.com".to_string(), name: "B".to_string() },
        "token-one".to_string(),
        51,
    );
    assert!(matches!(r, Err(SubscriberError::UnexpectedError(_))));
    assert_eq!(directory.len(), 1, "the refused sign-up left nothing behind");
}

#[test]
fn store_token_refuses_duplicates_and_unknown_subscribers() {
    let mut directory = SubscriberDirectory::new();
    let receipt = directory
        .subscribe(FormData { email: "a@mail.com".to_string(), name: "A".to_string() }, 50)
        .unwrap();
    assert!(directory.store_token(receipt.subscriber_id, "second-token".to_string()).is_ok());
    assert!(directory.store_token(receipt.subscriber_id, "second-token".to_string()).is_err());
    assert!(directory.store_token(99, "third-token".to_string()).is_err());
}

#[test]
fn clicking_the_confirmation_link_confirms_a_subscription() {
    let mut directory = SubscriberDirectory::new();
    let receipt = directory
        .subscribe(
            FormData { email: "ursula_le_guin@mail.com".to_string(), name: "le guin".to_string() },
            50,
        )
        .unwrap();
    let parameters = Parameters { subscription_token: receipt.subscription_token.clone() };
    let id = directory.confirm(&parameters).unwrap();
    assert_eq!(id, receipt.subscriber_id);
    let recipients = directory.confirmed_recipients();
    assert_eq!(recipients, vec!["ursula_le_guin@mail.com".to_string()]);
}

#[test]
fn confirmations_with_unknown_tokens_are_rejected() {
    let mut directory = SubscriberDirectory::new();
    let parameters = Parameters { subscription_token: "no-such-token".to_string() };
    let r = directory.confirm(&parameters);
    assert!(matches!(r, Err(SubscribeConfirmError::UnknownToken)));
}

#[test]
fn confirmation_email_carries_the_link() {
    let new_subscriber = NewSubscriber::try_from(FormData {
        email: "a@mail.com".to_string(),
        name: "A".to_string(),
    })
    .unwrap();
    let email = send_confirmation_email(&new_subscriber, "https://example.com/", "tok123");
    assert_eq!(email.to, "a@mail.com");
    assert_eq!(email.subject, "Welcome!");
    assert_eq!(
        email.text_body,
        "Welcome to our newsletter!<br />Click <a href=\"https://example.com/subscriptions/confirm?subscription_token=tok123\">here</a> to confirm your subscription."
    );
    assert_eq!(email.html_body, email.text_body);
}

#[test]
fn get_confirmed_subscribers_reports_each_row() {
    let rows = vec![
        "good@mail.com".to_string(),
        "broken-address".to_string(),
        "also.good@mail.com".to_string(),
    ];
    let parsed = get_confirmed_subscribers(rows);
    assert_eq!(parsed.len(), 3);
    assert!(parsed[0].is_ok());
    assert!(parsed[1].is_err());
    assert!(parsed[2].is_ok());
}

#[test]
fn unauthorised_users_cannot_send_newsletters() {
    let form = NewsletterFormData {
        title: "Newsletter title".to_string(),
        text: "Newsletter body as plain text".to_string(),
        html_text: "<p>Newsletter body as HTML</p>".to_string(),
        idempotency_key: "abc".to_string(),
    };
    let r = publish_newsletter(None, &form, vec!["a@mail.com".to_string()]);
    assert!(matches!(r, Err(PublishError::AuthError(_))));
}

#[test]
fn publish_newsletter_skips_invalid_stored_addresses() {
    let form = NewsletterFormData {
        title: "Newsletter title".to_string(),
        text: "Newsletter body as plain text".to_string(),
        html_text: "<p>Newsletter body as HTML</p>".to_string(),
        idempotency_key: "abc".to_string(),
    };
    let rows = vec![
        "a@mail.com".to_string(),
        "broken-address".to_string(),
        "b@mail.com".to_string(),
    ];
    let messages = publish_newsletter(Some(1), &form, rows).unwrap();
    assert_eq!(messages.len(), 2);
    assert_eq!(messages[0].to, "a@mail.com");
    assert_eq!(messages[1].to, "b@mail.com");
    assert_eq!(messages[0].subject, "Newsletter title");
    assert_eq!(messages[0].html_body, "<p>Newsletter body as HTML</p>");
    assert_eq!(messages[0].text_body, "Newsletter body as plain text");
}

#[test]
fn environment_names_parse_case_insensitively() {
    assert!(matches!(Environment::try_from("local".to_string()), Ok(Environment::Local)));
    assert!(matches!(Environment::try_from("LOCAL".to_string()), Ok(Environment::Local)));
    assert!(matches!(
        Environment::try_from("Production".to_string()),
        Ok(Environment::Production)
    ));
    let err = Environment::try_from("staging".to_string()).unwrap_err();
    assert_eq!(
        err,
        "staging is not a supported environment.\nuse either 'local' or 'production'."
    );
    assert_eq!(Environment::Local.as_str(), "local");
    assert_eq!(Environment::Production.as_str(), "production");
}

#[test]
fn password_checks() {
    assert!(check_if_password_length_is_greater_than_12("short"));
    assert!(check_if_password_length_is_greater_than_12(&"p".repeat(11)));
    assert!(!check_if_password_length_is_greater_than_12(&"p".repeat(12)));
    assert!(!check_if_password_length_is_greater_than_12(&"p".repeat(129)));
    assert!(check_if_password_length_is_greater_than_12(&"p".repeat(130)));
    assert!(check_if_password_match("alpha", "beta"));
    assert!(!check_if_password_match("same-password", "same-password"));
}

#[test]
fn email_client_settings_validate_the_sender() {
    let mut settings = EmailClientSettings {
        base_url: "https://mail.example.com/".to_string(),
        sender_email: "sender@mail.com".to_string(),
        authorisation_token: "token".to_string(),
        timeout_milliseconds: 10_000,
    };
    let sender = settings.sender().unwrap();
    assert_eq!(sender.as_ref(), "sender@mail.com");
    settings.sender_email = "not-an-address".to_string();
    assert!(settings.sender().is_err());
}

#[test]
fn health_check_returns_an_empty_ok() {
    let resp = health_check();
    assert_eq!(resp.status, 200);
    assert_eq!(resp.headers.len(), 0);
    assert_eq!(resp.body, "");
}
