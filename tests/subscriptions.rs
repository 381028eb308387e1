use zero2prod::domain::{NewSubscriber, SubscriberEmail};
use zero2prod::subscriptions::{confirmation_email, generate_subscription_token, SubscribeError};

#[test]
fn tokens_are_25_alphanumerics() {
    let t = generate_subscription_token();
    assert_eq!(t.chars().count(), 25);
    assert!(t.chars().all(|c| c.is_ascii_alphanumeric()));
}

#[test]
fn subscribe_sends_a_confirmation_email_with_a_link() {
    let to = SubscriberEmail::parse("john.wick@example.com").unwrap();
    let m = confirmation_email(to, "http://127.0.0.1:8000", "abc123");
    assert_eq!(m.recipient.as_str(), "john.wick@example.com");
    assert_eq!(m.subject, "Welcome");
    assert_eq!(
        m.text_content,
        "Welcome to our newsletter\nVisit http://127.0.0.1:8000/subscriptions/confirm?subscription_token=abc123 to confirm your subscription."
    );
    assert_eq!(
        m.html_content,
        "Welcome to our newsletter!<br />Click <a href=\"http://127.0.0.1:8000/subscriptions/confirm?subscription_token=abc123\">here</a> to confirm your subscription."
    );
}

#[test]
fn subscribe_errors_map_to_statuses() {
    assert_eq!(SubscribeError::Validation(String::new()).status_code(), 400);
    assert_eq!(SubscribeError::UnexpectedError(String::new()).status_code(), 500);
}

#[test]
fn subscriptions_subscribe_responds_with_400_when_email_is_present_but_empty() {
    let r = NewSubscriber::parse("Anthony", "");
    assert_eq!(r.err().unwrap().status_code(), 400);
}

#[test]
fn subscriptions_subscribe_responds_with_400_when_name_is_invalid() {
    let r = NewSubscriber::parse("", "anthony.muir@example.com");
    assert_eq!(r.err().unwrap().status_code(), 400);
}

#[test]
fn subscriptions_subscriber_responds_with_400_when_email_has_invalid_format() {
    let r = NewSubscriber::parse("Bill", "nonsense");
    match r {
        Err(SubscribeError::Validation(m)) => assert_eq!(m, "nonsense email is invalid"),
        _ => panic!("expected a validation error"),
    }
}

#[test]
fn subscriptions_subscribe_responds_with_200_for_valid_form_data() {
    let s = NewSubscriber::parse("John Doe", "john.doe@example.com").unwrap();
    assert_eq!(s.name.as_str(), "John Doe");
    assert_eq!(s.email.as_str(), "john.doe@example.com");
}
