use zero_to_production::domain::subscriber_email::SubscriberEmail;
use zero_to_production::domain::subscriber_name::SubscriberName;
use zero_to_production::domain::subscriptions::SubscriberName as LegacySubscriberName;
use zero_to_production::subscribers::FormData;
use zero_to_production::domain::new_subscriber::NewSubscriber;

#[test]
fn subscriber_email_empty_string_is_invalid() {
    let email = "".to_string();
    assert!(SubscriberEmail::parse(email).is_err());
}

#[test]
fn email_missing_at_symbol_is_invalid() {
    let email = "testtest.com".to_string();
    assert!(SubscriberEmail::parse(email).is_err());
}

#[test]
fn email_missing_subject_is_invalid() {
    let email = "@test.com".to_string();
    assert!(SubscriberEmail::parse(email).is_err());
}

#[test]
fn a_valid_email_is_parsed_successfully() {
    let email = "ursula_le_guin@mail.com".to_string();
    let parsed = SubscriberEmail::parse(email).unwrap();
    assert_eq!(parsed.as_ref(), "ursula_le_guin@mail.com");
}

#[test]
fn a_256_grapheme_long_name_is_valid() {
    let name = "ё".repeat(256);
    assert!(SubscriberName::parse(name).is_ok());
}

#[test]
fn a_257_grapheme_long_name_is_invalid() {
    let name = "ё".repeat(257);
    assert!(SubscriberName::parse(name).is_err());
}

#[test]
fn whitespace_only_names_are_invalid() {
    let name = " ".to_string();
    assert!(SubscriberName::parse(name).is_err());
}

#[test]
fn subscriber_name_empty_string_is_invalid() {
    let name = "".to_string();
    assert!(SubscriberName::parse(name).is_err());
}

#[test]
fn names_containing_an_invalid_character_are_invalid() {
    for name in &['/', '(', ')', '"', '<', '>', '\\', '{', '}'] {
        let name = name.to_string();
        assert!(SubscriberName::parse(name).is_err());
    }
}

#[test]
fn a_valid_name_is_parsed_successfully() {
    let name = "Lorem ipsum".to_string();
    assert!(SubscriberName::parse(name).is_ok());
}

#[test]
fn name_parse_error_names_the_input() {
    let err = SubscriberName::parse("{bad}".to_string()).unwrap_err();
    assert_eq!(err, "{bad} is not a valid subscriber name.");
}

#[test]
fn email_parse_error_names_the_input() {
    let err = SubscriberEmail::parse("not-an-email".to_string()).unwrap_err();
    assert_eq!(err, "not-an-email is not a valid subscriber email.");
}

#[test]
fn name_inner_round_trips() {
    let mut name = SubscriberName::parse("Ursula".to_string()).unwrap();
    assert_eq!(name.as_ref(), "Ursula");
    name.inner_mut().make_ascii_uppercase();
    assert_eq!(name.as_ref(), "URSULA");
    assert_eq!(name.inner(), "URSULA");
}

#[test]
fn legacy_name_try_parse_accepts_and_rejects() {
    assert!(LegacySubscriberName::try_parse("  ".to_string()).is_none());
    assert!(LegacySubscriberName::try_parse("a(b".to_string()).is_none());
    let mut name = LegacySubscriberName::try_parse("Ursula".to_string()).unwrap();
    assert_eq!(name.inner_ref(), "Ursula");
    name.inner_mut().make_ascii_lowercase();
    assert_eq!(name.inner_ref(), "ursula");
    assert_eq!(name.inner(), "ursula");
}

#[test]
fn legacy_name_parse_wraps_a_valid_name() {
    let name = LegacySubscriberName::parse("Lorem ipsum".to_string());
    assert_eq!(name.inner_ref(), "Lorem ipsum");
}

#[test]
fn new_subscriber_try_from_validates_both_fields() {
    let ok = NewSubscriber::try_from(FormData {
        email: "ursula_le_guin@mail.com".to_string(),
        name: "le guin".to_string(),
    });
    let ok = ok.unwrap();
    assert_eq!(ok.email.as_ref(), "ursula_le_guin@mail.com");
    assert_eq!(ok.name.as_ref(), "le guin");

    let bad_name = NewSubscriber::try_from(FormData {
        email: "ursula_le_guin@mail.com".to_string(),
        name: "".to_string(),
    });
    assert!(bad_name.is_err());

    let bad_email = NewSubscriber::try_from(FormData {
        email: "definitely-not-an-email".to_string(),
        name: "le guin".to_string(),
    });
    assert!(bad_email.is_err());
}

#[test]
fn combining_marks_count_as_single_graphemes() {
    // 200 grapheme clusters of two code points each: far more than 256
    // characters, but an acceptable number of graphemes
    let name = "a\u{310}".repeat(200);
    assert!(name.chars().count() > 256);
    assert!(SubscriberName::parse(name).is_ok());
}
