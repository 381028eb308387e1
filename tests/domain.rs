use zero2prod::domain::{NewSubscriber, SubscriberEmail, SubscriberName};

#[test]
fn subscriber_email_empty_string_is_invalid() {
    assert!(SubscriberEmail::parse("").is_err());
}

#[test]
fn string_without_at_symbol_is_invalid() {
    assert!(SubscriberEmail::parse("not-an-email.com").is_err());
}

#[test]
fn email_without_subject_is_invalid() {
    assert!(SubscriberEmail::parse("@missing-subject.net").is_err());
}

#[test]
fn valid_email_is_properly_parsed() {
    let email = SubscriberEmail::parse("ursula@example.com").unwrap();
    assert_eq!(email.as_str(), "ursula@example.com");
}

#[test]
fn invalid_email_error_names_the_address() {
    let err = SubscriberEmail::parse("nonsense").err().unwrap();
    assert_eq!(err, "nonsense email is invalid");
}

#[test]
fn a_256_character_long_name_is_valid() {
    let name = "ü".repeat(256);
    assert!(SubscriberName::parse(&name).is_ok());
}

#[test]
fn a_name_longer_than_256_characters_is_invalid() {
    let name = "a".repeat(257);
    assert!(SubscriberName::parse(&name).is_err());
}

#[test]
fn a_257_grapheme_name_gives_the_length_error() {
    let name = "ü".repeat(257);
    assert_eq!(
        SubscriberName::parse(&name).err(),
        Some("The name can't be longer than 256 characters")
    );
}

#[test]
fn whitespace_only_name_is_invalid() {
    assert!(SubscriberName::parse("  ").is_err());
}

#[test]
fn unicode_whitespace_only_name_is_invalid() {
    assert_eq!(
        SubscriberName::parse("\u{3000}\t\u{a0}").err(),
        Some("The name can't be empty")
    );
}

#[test]
fn name_with_forbidden_characters_is_invalid() {
    assert!(SubscriberName::parse("(Forbidden Name").is_err());
}

#[test]
fn every_forbidden_character_is_refused() {
    for c in ['/', '(', ')', '"', '<', '>', '\\', '{', '}'] {
        let name = format!("Ursula {} Le Guin", c);
        assert_eq!(
            SubscriberName::parse(&name).err(),
            Some("The name contains forbidden characters")
        );
    }
}

#[test]
fn subscriber_name_empty_string_is_invalid() {
    assert!(SubscriberName::parse("").is_err());
}

#[test]
fn a_valid_name_is_parsed_successfully() {
    assert!(SubscriberName::parse("John Doe").is_ok());
}

#[test]
fn a_parsed_name_keeps_its_text() {
    let name = SubscriberName::parse("  John Doe ").unwrap();
    assert_eq!(name.as_str(), "  John Doe ");
}

#[test]
fn new_subscriber_checks_the_name_first() {
    let r = NewSubscriber::parse("", "nonsense");
    assert_eq!(r.err().unwrap().status_code(), 400);
    let s = NewSubscriber::parse("John Doe", "john.doe@example.com").unwrap();
    assert_eq!(s.name.as_str(), "John Doe");
    assert_eq!(s.email.as_str(), "john.doe@example.com");
}
