//! Signing up: validating a new subscriber, the token that confirms the
//! address, and the e-mail that carries it.
use crate::domain::subscriber_email::email_valid;
use crate::domain::subscriber_name::name_valid;
use crate::domain::{NewSubscriber, SubscriberEmail, SubscriberName};
use crate::outbox::EmailMessage;
use rand::Rng;
use vstd::prelude::*;

verus! {

/// Why a sign-up failed.
#[derive(Debug)]
pub enum SubscribeError {
    /// The submitted name or address is not acceptable; the text says why.
    Validation(String),
    /// Something else failed.
    UnexpectedError(String),
}

impl SubscribeError {
    /// The HTTP status of the error: 400 for a validation failure, else 500.
    pub fn status_code(&self) -> (r: u16)
        ensures
            self is Validation ==> r == 400,
            self is UnexpectedError ==> r == 500,
    {
        match self {
            SubscribeError::Validation(_) => 400,
            SubscribeError::UnexpectedError(_) => 500,
        }
    }
}

impl NewSubscriber {
    /// Validates a submitted name and address, the name first. A failure is
    /// a `Validation` error.
    pub fn parse(name: &str, email: &str) -> (r: Result<NewSubscriber, SubscribeError>)
        ensures
            r is Ok <==> name_valid(name@) && email_valid(email@),
            r matches Ok(s) ==> s.name@ == name@ && s.email@ == email@,
            r is Err ==> r matches Err(SubscribeError::Validation(_)),
    {
        let name = match SubscriberName::parse(name) {
            Ok(n) => n,
            Err(m) => {
                return Err(SubscribeError::Validation(m.to_owned()));
            },
        };
        let email = match SubscriberEmail::parse(email) {
            Ok(e) => e,
            Err(m) => {
                return Err(SubscribeError::Validation(m));
            },
        };
        Ok(NewSubscriber { email, name })
    }
}

/// The characters a subscription token is made of: ASCII letters and digits.
pub open spec fn is_token_char(c: char) -> bool {
    ('A' <= c && c <= 'Z') || ('a' <= c && c <= 'z') || ('0' <= c && c <= '9')
}

/// Relies on `rand`'s `Alphanumeric` distribution, drawn from the thread's
/// generator: it yields one of `A-Z`, `a-z`, `0-9`.
#[verifier::external_body]
fn random_token_char() -> (c: char)
    ensures
        is_token_char(c),
{
    char::from(rand::thread_rng().sample(rand::distributions::Alphanumeric))
}

/// Relies on `String::push`: appends one character.
#[verifier::external_body]
fn push_char(s: &mut String, c: char)
    ensures
        final(s)@ == old(s)@.push(c),
{
    s.push(c)
}

/// The number of characters of a subscription token.
pub const TOKEN_LEN: usize = 25;

/// A fresh random subscription token: 25 ASCII letters and digits.
pub fn generate_subscription_token() -> (r: String)
    ensures
        r@.len() == TOKEN_LEN,
        forall|i: int| 0 <= i < r@.len() ==> is_token_char(#[trigger] r@[i]),
{
    let mut token = String::new();
    let mut i: usize = 0;
    while i < TOKEN_LEN
        invariant
            i <= TOKEN_LEN,
            token@.len() == i,
            forall|j: int| 0 <= j < token@.len() ==> is_token_char(#[trigger] token@[j]),
        decreases TOKEN_LEN - i,
    {
        let c = random_token_char();
        push_char(&mut token, c);
        i += 1;
    }
    token
}

/// The link that confirms a subscription.
pub open spec fn confirmation_link(base_url: Seq<char>, token: Seq<char>) -> Seq<char> {
    base_url + "/subscriptions/confirm?subscription_token="@ + token
}

/// The e-mail that asks `recipient` to confirm a subscription by following
/// the link built from `base_url` and `token`; subject "Welcome".
pub fn confirmation_email(recipient: SubscriberEmail, base_url: &str, token: &str) -> (r:
    EmailMessage)
    ensures
        r.recipient@ == recipient@,
        r.subject@ == "Welcome"@,
        r.text_content@ == "Welcome to our newsletter\nVisit "@ + confirmation_link(
            base_url@,
            token@,
        ) + " to confirm your subscription."@,
        r.html_content@ == "Welcome to our newsletter!<br />Click <a href=\""@
            + confirmation_link(base_url@, token@) + "\">here</a> to confirm your subscription."@,
{
    let mut link = base_url.to_owned();
    link.append("/subscriptions/confirm?subscription_token=");
    link.append(token);
    let mut text_content = String::from_str("Welcome to our newsletter\nVisit ");
    text_content.append(link.as_str());
    text_content.append(" to confirm your subscription.");
    let mut html_content = String::from_str("Welcome to our newsletter!<br />Click <a href=\"");
    html_content.append(link.as_str());
    html_content.append("\">here</a> to confirm your subscription.");
    EmailMessage {
        recipient,
        subject: String::from_str("Welcome"),
        html_content,
        text_content,
    }
}

} // verus!
