use zero2prod::issue_delivery_worker::{complete_task, next_poll_delay_secs, outcome_of, ExecutionOutcome};
use zero2prod::newsletter::{FlashLevel, FormData, PublishError, PublishOutcome, Store};
use zero2prod::outbox::{DeliveryOutcome, EmailMessage, Outbox};

fn form(title: &str, text: &str, html: &str, key: &str) -> FormData {
    FormData {
        title: title.to_string(),
        text_content: text.to_string(),
        html_content: html.to_string(),
        idempotency_key: key.to_string(),
    }
}

fn recipients(list: &[&str]) -> Vec<String> {
    list.iter().map(|s| s.to_string()).collect()
}

/// Runs the worker until the queue is empty; `send` plays the transport and
/// every message it is handed is recorded.
fn drain(outbox: &mut Outbox, send: impl Fn(&EmailMessage) -> bool) -> Vec<EmailMessage> {
    let mut sent = Vec::new();
    loop {
        let task = outbox.dequeue_task();
        if outcome_of(&task) == ExecutionOutcome::EmptyQueue {
            return sent;
        }
        let task = task.unwrap();
        let outcome = match &task.delivery {
            Some(m) => {
                let ok = send(m);
                sent.push(EmailMessage {
                    recipient: zero2prod::domain::SubscriberEmail::parse(m.recipient.as_str())
                        .unwrap(),
                    subject: m.subject.clone(),
                    html_content: m.html_content.clone(),
                    text_content: m.text_content.clone(),
                });
                if ok {
                    DeliveryOutcome::Sent
                } else {
                    DeliveryOutcome::TransportFailed
                }
            }
            None => DeliveryOutcome::Skipped,
        };
        assert_eq!(complete_task(outbox, &task, outcome), ExecutionOutcome::TaskCompleted);
    }
}

fn same_outcome(a: &PublishOutcome, b: &PublishOutcome) -> bool {
    a.response.status_code == b.response.status_code
        && a.response.headers == b.response.headers
        && a.response.body == b.response.body
        && a.flash.level == b.flash.level
        && a.flash.text == b.flash.text
}

#[test]
fn publishing_enqueues_one_row_per_recipient_and_replays_the_response() {
    let mut store = Store::new();
    let to = recipients(&["a@x.com", "b@x.com"]);
    let first = store
        .publish_newsletter(1, form("T", "body", "<p>body</p>", "key-1"), &to, 42, 100)
        .unwrap();
    assert_eq!(first.response.status_code, 303);
    assert_eq!(
        first.response.headers,
        vec![("location".to_string(), b"/admin/newsletter".to_vec())]
    );
    assert_eq!(store.outbox.queue_len(), 2);
    assert_eq!(store.outbox.pending_for(42), 2);

    let second = store
        .publish_newsletter(1, form("T", "body", "<p>body</p>", "key-1"), &to, 43, 101)
        .unwrap();
    assert!(same_outcome(&first, &second));
    assert_eq!(store.outbox.queue_len(), 2);
    assert_eq!(store.outbox.pending_for(43), 0);

    let sent = drain(&mut store.outbox, |_| true);
    let mut to_list: Vec<&str> = sent.iter().map(|m| m.recipient.as_str()).collect();
    to_list.sort();
    assert_eq!(to_list, vec!["a@x.com", "b@x.com"]);
    for m in &sent {
        assert_eq!(m.subject, "T");
        assert_eq!(m.text_content, "body");
        assert_eq!(m.html_content, "<p>body</p>");
    }
    assert_eq!(store.outbox.queue_len(), 0);
}

#[test]
fn newsletter_publishing_is_idempotent() {
    let mut store = Store::new();
    let to = recipients(&["ursula@example.com"]);
    let body = || {
        form(
            "My next newsletter",
            "This is yet another text email",
            "<p>This is yet another HTML email</p>",
            "3c5b3a4e-0c1f-4d0e-9a57-0f2b1e6a9d11",
        )
    };
    let first = store.publish_newsletter(5, body(), &to, 1, 10).unwrap();
    assert_eq!(first.flash.level, FlashLevel::Info);
    assert_eq!(
        first.flash.text,
        "The newsletter issues has been accepted and emails will be sent out shortly"
    );
    assert_eq!(drain(&mut store.outbox, |_| true).len(), 1);

    let second = store.publish_newsletter(5, body(), &to, 2, 11).unwrap();
    assert!(same_outcome(&first, &second));
    assert_eq!(drain(&mut store.outbox, |_| true).len(), 0);
}

#[test]
fn concurrent_form_submissions_are_handled_idempotently() {
    let mut store = Store::new();
    let to = recipients(&["ursula@example.com"]);
    let body = || {
        form(
            "My concurrent newsletter submission",
            "Things are going to happen IN PARALLEL with this text",
            "<p>Things are going to happen <i>in parallel</i> with this HTML</p>",
            "b1d7c0a2-4c55-4f2e-8d0b-6f1b5a2e7c90",
        )
    };
    let response1 = store.publish_newsletter(9, body(), &to, 1, 10).unwrap();
    let response2 = store.publish_newsletter(9, body(), &to, 2, 10).unwrap();
    assert_eq!(response1.response.status_code, response2.response.status_code);
    assert!(same_outcome(&response1, &response2));
    assert_eq!(drain(&mut store.outbox, |_| true).len(), 1);
}

#[test]
fn a_request_in_flight_is_not_run_twice() {
    let mut store = Store::new();
    let key = zero2prod::idempotency::IdempotencyKey::parse("k".to_string()).unwrap();
    assert!(matches!(
        store.idempotency.claim_or_replay(&key, 3, 0),
        zero2prod::idempotency::Claim::Processing(_)
    ));
    let r = store.publish_newsletter(3, form("T", "t", "h", "k"), &recipients(&["a@x.com"]), 1, 0);
    assert!(matches!(r, Err(PublishError::RequestInFlight)));
    assert_eq!(store.outbox.queue_len(), 0);
}

#[test]
fn newsletter_not_sent_if_content_is_missing_or_empty() {
    let mut store = Store::new();
    let to = recipients(&["a@x.com"]);
    let r = store
        .publish_newsletter(1, form("Newsletter title", "", "<p>Newsletter body as HTML</p>", "k1"), &to, 1, 0)
        .unwrap();
    assert_eq!(r.flash.level, FlashLevel::Error);
    assert_eq!(r.flash.text, "Failed to publish the newsletter: missing text content");
    assert_eq!(r.response.headers[0].1, b"/admin/newsletter".to_vec());
    let r = store
        .publish_newsletter(1, form("Newsletter title", "Newsletter body as plain text", "", "k1"), &to, 1, 0)
        .unwrap();
    assert_eq!(r.flash.text, "Failed to publish the newsletter: missing HTML content");
    assert_eq!(store.outbox.queue_len(), 0);
}

#[test]
fn newsletter_not_sent_if_title_is_missing() {
    let mut store = Store::new();
    let r = store
        .publish_newsletter(
            1,
            form("", "Newsletter body as plain text", "<p>Newsletter body as HTML</p>", "k1"),
            &recipients(&["a@x.com"]),
            1,
            0,
        )
        .unwrap();
    assert_eq!(r.flash.text, "Failed to publish the newsletter: missing newsletter title");
    assert_eq!(store.outbox.queue_len(), 0);
}

#[test]
fn a_malformed_key_is_a_bad_request() {
    let mut store = Store::new();
    let r = store.publish_newsletter(1, form("T", "t", "h", ""), &recipients(&[]), 1, 0);
    match r {
        Err(PublishError::BadRequest(m)) => assert_eq!(m, "The idempotency key cannot be empty"),
        _ => panic!("expected a bad request"),
    }
}

#[test]
fn newsletter_is_not_sent_to_unconfirmed_subscribers() {
    let mut store = Store::new();
    store
        .publish_newsletter(1, form("Newsletter title", "Newsletter body as plain text", "<p>Newsletter body as HTML</p>", "k"), &recipients(&[]), 1, 0)
        .unwrap();
    assert_eq!(store.outbox.pending_for(1), 0);
    assert_eq!(drain(&mut store.outbox, |_| true).len(), 0);
}

#[test]
fn a_refused_write_records_nothing() {
    let mut store = Store::new();
    let to = recipients(&["a@x.com", "a@x.com"]);
    let r = store.publish_newsletter(1, form("T", "t", "h", "k"), &to, 1, 0);
    assert!(matches!(
        r,
        Err(PublishError::Unexpected(zero2prod::errors::StoreError::DuplicateRecipient))
    ));
    assert_eq!(store.outbox.queue_len(), 0);
    // The claim was given back: the same key may be used again.
    let r = store.publish_newsletter(1, form("T", "t", "h", "k"), &recipients(&["a@x.com"]), 1, 0);
    assert!(r.is_ok());
    assert_eq!(store.outbox.queue_len(), 1);
}

#[test]
fn an_issue_identifier_is_used_once() {
    let mut store = Store::new();
    let to = recipients(&["a@x.com"]);
    assert!(store.publish_newsletter(1, form("T", "t", "h", "k1"), &to, 7, 0).is_ok());
    let r = store.publish_newsletter(1, form("T", "t", "h", "k2"), &to, 7, 0);
    assert!(matches!(
        r,
        Err(PublishError::Unexpected(zero2prod::errors::StoreError::DuplicateIssue))
    ));
    assert_eq!(store.outbox.queue_len(), 1);
}

#[test]
fn a_fresh_identifier_is_drawn_for_each_issue() {
    let mut store = Store::new();
    let to = recipients(&["a@x.com"]);
    assert!(store.publish_new_issue(1, form("T", "t", "h", "k1"), &to, 0).is_ok());
    assert!(store.publish_new_issue(1, form("T", "t", "h", "k2"), &to, 0).is_ok());
    assert_eq!(store.outbox.queue_len(), 2);
}

#[test]
fn an_invalid_stored_address_is_removed_without_a_send() {
    let mut store = Store::new();
    let to = recipients(&["a@x.com", "not-an-email", "c@x.com"]);
    store.publish_newsletter(1, form("T", "t", "h", "k"), &to, 1, 0).unwrap();
    let sent = drain(&mut store.outbox, |_| true);
    let list: Vec<&str> = sent.iter().map(|m| m.recipient.as_str()).collect();
    assert_eq!(list, vec!["a@x.com", "c@x.com"]);
    assert_eq!(store.outbox.queue_len(), 0);
}

#[test]
fn a_failed_send_is_not_retried_and_blocks_nothing() {
    let mut store = Store::new();
    let to = recipients(&["a@x.com", "b@x.com", "c@x.com"]);
    store.publish_newsletter(1, form("T", "t", "h", "k"), &to, 1, 0).unwrap();
    let sent = drain(&mut store.outbox, |m| m.recipient.as_str() != "a@x.com");
    assert_eq!(sent.len(), 3);
    assert_eq!(store.outbox.queue_len(), 0);
}

#[test]
fn workers_skip_rows_held_by_others() {
    let mut store = Store::new();
    let to = recipients(&["a@x.com", "b@x.com"]);
    store.publish_newsletter(1, form("T", "t", "h", "k"), &to, 1, 0).unwrap();
    let t1 = store.outbox.dequeue_task().unwrap();
    let t2 = store.outbox.dequeue_task().unwrap();
    assert_eq!(t1.subscriber_email, "a@x.com");
    assert_eq!(t2.subscriber_email, "b@x.com");
    assert!(store.outbox.dequeue_task().is_none());
    // A worker that gives up its claim returns the row to the queue.
    store.outbox.release_task(&t1);
    let t3 = store.outbox.dequeue_task().unwrap();
    assert_eq!(t3.subscriber_email, "a@x.com");
    complete_task(&mut store.outbox, &t2, DeliveryOutcome::Sent);
    complete_task(&mut store.outbox, &t3, DeliveryOutcome::Sent);
    assert_eq!(store.outbox.queue_len(), 0);
}

#[test]
fn the_worker_waits_by_outcome() {
    assert_eq!(next_poll_delay_secs(Some(ExecutionOutcome::TaskCompleted)), 0);
    assert_eq!(next_poll_delay_secs(Some(ExecutionOutcome::EmptyQueue)), 10);
    assert_eq!(next_poll_delay_secs(None), 1);
}

#[test]
fn newsletter_is_sent_to_confirmed_subscribers() {
    let mut store = Store::new();
    store
        .publish_newsletter(
            1,
            form("Newsletter title", "Newsletter body as a plain text", "<p>Newsletter body as HTML</p>", "k"),
            &recipients(&["ursula@example.com"]),
            1,
            0,
        )
        .unwrap();
    let sent = drain(&mut store.outbox, |_| true);
    assert_eq!(sent.len(), 1);
    assert_eq!(sent[0].recipient.as_str(), "ursula@example.com");
    assert_eq!(sent[0].subject, "Newsletter title");
}
