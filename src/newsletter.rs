//! Publishing a newsletter on behalf of an admin: the form is checked, the
//! request is claimed in the idempotency store, the issue and its deliveries
//! are written to the outbox, and the response is stored for replay, all in
//! one step that either happens whole or not at all.
use crate::errors::StoreError;
use crate::idempotency::key::key_valid;
use crate::idempotency::persistence::{claim_result, statuses_valid, ClaimModel, IdempotencyModel};
use crate::issue_delivery_worker::{drain, execute_step, lemma_drain, none_claimed, task_for};
use crate::idempotency::{Claim, IdempotencyKey, IdempotencyStore};
use crate::outbox::{addresses, lemma_publish_keeps_inv, new_row, outbox_inv, publish_post, IssueModel, Outbox, OutboxModel};
use crate::response::{see_other, see_other_model, ResponseModel, StoredResponse};
use vstd::prelude::*;

verus! {

/// The submitted form.
#[derive(Debug)]
pub struct FormData {
    pub title: String,
    pub text_content: String,
    pub html_content: String,
    pub idempotency_key: String,
}

/// The content of a submitted form.
pub struct FormModel {
    pub title: Seq<char>,
    pub text_content: Seq<char>,
    pub html_content: Seq<char>,
    pub idempotency_key: Seq<char>,
}

impl View for FormData {
    type V = FormModel;

    open spec fn view(&self) -> FormModel {
        FormModel {
            title: self.title@,
            text_content: self.text_content@,
            html_content: self.html_content@,
            idempotency_key: self.idempotency_key@,
        }
    }
}

/// The kind of a message shown to the admin on the next page.
#[derive(PartialEq, Eq, Structural, Debug, Clone, Copy)]
pub enum FlashLevel {
    Info,
    Error,
}

/// A one-time message for the admin's next page.
#[derive(Debug)]
pub struct FlashMessage {
    pub level: FlashLevel,
    pub text: String,
}

/// The content of a flash message.
pub struct FlashModel {
    pub level: FlashLevel,
    pub text: Seq<char>,
}

/// The response to a publishing request, and the message that goes with it.
#[derive(Debug)]
pub struct PublishOutcome {
    pub response: StoredResponse,
    pub flash: FlashMessage,
}

/// Why a publishing request was not served.
#[derive(Debug)]
pub enum PublishError {
    /// The idempotency key is malformed ("400 Bad Request"); the text says why.
    BadRequest(String),
    /// An earlier request with the same key is still being processed.
    RequestInFlight,
    /// The outbox refused the write; nothing was recorded.
    Unexpected(StoreError),
}

/// The content of a `PublishError`.
pub enum PublishErrorModel {
    BadRequest(Seq<char>),
    RequestInFlight,
    Unexpected(StoreError),
}

pub open spec fn outcome_view(r: Result<PublishOutcome, PublishError>) -> Result<
    (ResponseModel, FlashModel),
    PublishErrorModel,
> {
    match r {
        Ok(o) => Ok((o.response@, FlashModel { level: o.flash.level, text: o.flash.text@ })),
        Err(PublishError::BadRequest(m)) => Err(PublishErrorModel::BadRequest(m@)),
        Err(PublishError::RequestInFlight) => Err(PublishErrorModel::RequestInFlight),
        Err(PublishError::Unexpected(e)) => Err(PublishErrorModel::Unexpected(e)),
    }
}

/// Where the admin is sent after a submission.
pub open spec fn form_page() -> Seq<char> {
    "/admin/newsletter"@
}

pub open spec fn success_flash() -> FlashModel {
    FlashModel {
        level: FlashLevel::Info,
        text: "The newsletter issues has been accepted and emails will be sent out shortly"@,
    }
}

pub open spec fn error_flash(text: Seq<char>) -> FlashModel {
    FlashModel { level: FlashLevel::Error, text }
}

pub open spec fn key_error(key: Seq<char>) -> Seq<char> {
    if key.len() == 0 {
        "The idempotency key cannot be empty"@
    } else {
        "The idempotency key must be shorter than 50 characters"@
    }
}

/// The message for a form with an empty field, `None` if none is empty. The
/// text is checked first, then the HTML, then the title.
pub open spec fn missing_field(f: FormModel) -> Option<Seq<char>> {
    if f.text_content.len() == 0 {
        Some("Failed to publish the newsletter: missing text content"@)
    } else if f.html_content.len() == 0 {
        Some("Failed to publish the newsletter: missing HTML content"@)
    } else if f.title.len() == 0 {
        Some("Failed to publish the newsletter: missing newsletter title"@)
    } else {
        None
    }
}

/// The content of the whole store.
pub struct StoreModel {
    pub idempotency: IdempotencyModel,
    pub outbox: OutboxModel,
}

/// The issue that a form describes.
pub open spec fn issue_of(f: FormModel, published_at: u64) -> IssueModel {
    IssueModel {
        title: f.title,
        text_content: f.text_content,
        html_content: f.html_content,
        published_at,
    }
}

/// A request that gets past validation and finds no record for its key
/// publishes its issue, unless the outbox refuses the write.
pub open spec fn publish_refusal(
    s: StoreModel,
    issue_id: u128,
    recipients: Seq<Seq<char>>,
) -> Option<StoreError> {
    if s.outbox.issues.contains_key(issue_id) {
        Some(StoreError::DuplicateIssue)
    } else if !recipients.no_duplicates() {
        Some(StoreError::DuplicateRecipient)
    } else {
        None
    }
}

/// What `publish_newsletter` answers in store `s`.
pub open spec fn publish_reply(
    s: StoreModel,
    user_id: u128,
    f: FormModel,
    recipients: Seq<Seq<char>>,
    issue_id: u128,
) -> Result<(ResponseModel, FlashModel), PublishErrorModel> {
    if !key_valid(f.idempotency_key) {
        Err(PublishErrorModel::BadRequest(key_error(f.idempotency_key)))
    } else if missing_field(f) is Some {
        Ok((see_other_model(form_page()), error_flash(missing_field(f)->0)))
    } else {
        match claim_result(s.idempotency, (user_id, f.idempotency_key)) {
            ClaimModel::Replay(r) => Ok((r, success_flash())),
            ClaimModel::InFlight => Err(PublishErrorModel::RequestInFlight),
            ClaimModel::Processing(_) => match publish_refusal(s, issue_id, recipients) {
                Some(e) => Err(PublishErrorModel::Unexpected(e)),
                None => Ok((see_other_model(form_page()), success_flash())),
            },
        }
    }
}

/// The store after `publish_newsletter`: it changes only for a request that
/// publishes, which records the issue, its deliveries and the response to
/// replay.
pub open spec fn publish_state(
    s: StoreModel,
    user_id: u128,
    f: FormModel,
    recipients: Seq<Seq<char>>,
    issue_id: u128,
    published_at: u64,
) -> StoreModel {
    if key_valid(f.idempotency_key) && missing_field(f) is None && claim_result(
        s.idempotency,
        (user_id, f.idempotency_key),
    ) is Processing && publish_refusal(s, issue_id, recipients) is None {
        StoreModel {
            idempotency: s.idempotency.insert(
                (user_id, f.idempotency_key),
                Some(see_other_model(form_page())),
            ),
            outbox: publish_post(s.outbox, issue_id, issue_of(f, published_at), recipients),
        }
    } else {
        s
    }
}

/// The idempotency table and the outbox, which publishing writes together.
pub struct Store {
    pub idempotency: IdempotencyStore,
    pub outbox: Outbox,
}

impl View for Store {
    type V = StoreModel;

    open spec fn view(&self) -> StoreModel {
        StoreModel { idempotency: self.idempotency@, outbox: self.outbox@ }
    }
}

fn success_message() -> (r: FlashMessage)
    ensures
        r.level == success_flash().level && r.text@ == success_flash().text,
{
    FlashMessage {
        level: FlashLevel::Info,
        text: String::from_str("The newsletter issues has been accepted and emails will be sent out shortly"),
    }
}

impl Store {
    /// Both parts are well formed.
    pub open spec fn wf(&self) -> bool {
        self.idempotency.wf() && self.outbox.wf()
    }

    /// What the invariants say of the content.
    pub proof fn lemma_wf(&self)
        requires
            self.wf(),
        ensures
            outbox_inv(self@.outbox),
            statuses_valid(self@.idempotency),
    {
        self.idempotency.lemma_wf();
        self.outbox.lemma_wf();
    }

    /// An empty store.
    pub fn new() -> (r: Store)
        ensures
            r.wf(),
            r@.idempotency == Map::<(u128, Seq<char>), Option<ResponseModel>>::empty(),
            r@.outbox.issues == Map::<u128, IssueModel>::empty(),
            r@.outbox.queue.len() == 0,
    {
        Store { idempotency: IdempotencyStore::new(), outbox: Outbox::new() }
    }

    /// Serves the admin's request to publish `form` as `user_id`.
    /// A malformed key is a bad request. A form with an empty text, HTML or
    /// title sends the admin back to the form with an error message, and
    /// nothing is recorded. Otherwise a request whose key was completed before
    /// gets the stored response again; one whose key is still in flight is
    /// refused; a new one publishes the issue as `issue_id` to `recipients`
    /// (the confirmed addresses at this moment), stores the redirect to the
    /// form as its response and returns it. If the outbox refuses the write,
    /// the claim is given back and nothing is recorded.
    pub fn publish_newsletter(
        &mut self,
        user_id: u128,
        form: FormData,
        recipients: &Vec<String>,
        issue_id: u128,
        now: u64,
    ) -> (r: Result<PublishOutcome, PublishError>)
        requires
            old(self).wf(),
        ensures
            final(self).wf(),
            outcome_view(r) == publish_reply(
                old(self)@,
                user_id,
                form@,
                addresses(recipients@),
                issue_id,
            ),
            final(self)@ == publish_state(
                old(self)@,
                user_id,
                form@,
                addresses(recipients@),
                issue_id,
                now,
            ),
    {
        let ghost f = form@;
        let FormData { title, text_content, html_content, idempotency_key } = form;
        let key = match IdempotencyKey::parse(idempotency_key) {
            Ok(k) => k,
            Err(m) => {
                return Err(PublishError::BadRequest(m));
            },
        };
        if text_content.as_str().is_empty() {
            return Ok(
                PublishOutcome {
                    response: see_other("/admin/newsletter"),
                    flash: FlashMessage {
                        level: FlashLevel::Error,
                        text: String::from_str(
                            "Failed to publish the newsletter: missing text content",
                        ),
                    },
                },
            );
        }
        if html_content.as_str().is_empty() {
            return Ok(
                PublishOutcome {
                    response: see_other("/admin/newsletter"),
                    flash: FlashMessage {
                        level: FlashLevel::Error,
                        text: String::from_str(
                            "Failed to publish the newsletter: missing HTML content",
                        ),
                    },
                },
            );
        }
        if title.as_str().is_empty() {
            return Ok(
                PublishOutcome {
                    response: see_other("/admin/newsletter"),
                    flash: FlashMessage {
                        level: FlashLevel::Error,
                        text: String::from_str(
                            "Failed to publish the newsletter: missing newsletter title",
                        ),
                    },
                },
            );
        }
        let handle = match self.idempotency.claim_or_replay(&key, user_id, now) {
            Claim::Processing(h) => h,
            Claim::Replay(saved) => {
                return Ok(PublishOutcome { response: saved, flash: success_message() });
            },
            Claim::InFlight => {
                return Err(PublishError::RequestInFlight);
            },
        };
        match self.outbox.publish_issue(
            issue_id,
            title,
            text_content,
            html_content,
            recipients,
            now,
        ) {
            Ok(_) => {},
            Err(e) => {
                self.idempotency.abandon_claim(&handle);
                assert(self.idempotency@ =~= old(self).idempotency@);
                return Err(PublishError::Unexpected(e));
            },
        }
        let ghost k = (user_id, f.idempotency_key);
        assert(self.idempotency@ == old(self).idempotency@.insert(k, None));
        let r = self.idempotency.commit_response(handle, see_other("/admin/newsletter"));
        assert(self.idempotency@ =~= old(self).idempotency@.insert(
            k,
            Some(see_other_model(form_page())),
        ));
        match r {
            Ok(response) => Ok(PublishOutcome { response, flash: success_message() }),
            Err(e) => Err(PublishError::Unexpected(e)),
        }
    }
}

/// Relies on `uuid::Uuid::new_v4`: a random identifier, nothing more is
/// known of it.
#[verifier::external_body]
fn new_issue_id() -> u128 {
    uuid::Uuid::new_v4().as_u128()
}

impl Store {
    /// `publish_newsletter` with a fresh random identifier for the issue: the
    /// outcome is the one `publish_newsletter` gives for some identifier.
    pub fn publish_new_issue(
        &mut self,
        user_id: u128,
        form: FormData,
        recipients: &Vec<String>,
        now: u64,
    ) -> (r: Result<PublishOutcome, PublishError>)
        requires
            old(self).wf(),
        ensures
            final(self).wf(),
            exists|issue_id: u128|
                outcome_view(r) == #[trigger] publish_reply(
                    old(self)@,
                    user_id,
                    form@,
                    addresses(recipients@),
                    issue_id,
                ) && final(self)@ == publish_state(
                    old(self)@,
                    user_id,
                    form@,
                    addresses(recipients@),
                    issue_id,
                    now,
                ),
    {
        let issue_id = new_issue_id();
        self.publish_newsletter(user_id, form, recipients, issue_id, now)
    }
}

/// Replay: once a request has been answered, repeating it with the same user
/// and key (with any recipients and identifier) gets the very same response
/// and changes nothing, so the issue is published and its deliveries are
/// enqueued only once.
pub proof fn lemma_repeated_request_replays(
    s: StoreModel,
    user_id: u128,
    f: FormModel,
    recipients: Seq<Seq<char>>,
    issue_id: u128,
    published_at: u64,
    recipients2: Seq<Seq<char>>,
    issue_id2: u128,
    published_at2: u64,
)
    requires
        publish_reply(s, user_id, f, recipients, issue_id) is Ok,
    ensures
        publish_reply(
            publish_state(s, user_id, f, recipients, issue_id, published_at),
            user_id,
            f,
            recipients2,
            issue_id2,
        ) == publish_reply(s, user_id, f, recipients, issue_id),
        publish_state(
            publish_state(s, user_id, f, recipients, issue_id, published_at),
            user_id,
            f,
            recipients2,
            issue_id2,
            published_at2,
        ) == publish_state(s, user_id, f, recipients, issue_id, published_at),
{
}

/// Exactly one delivery per recipient across a repeated request: starting
/// from an empty queue, a new request with a complete form publishes and the worker drains the
/// queue, serving each recipient once (sending exactly to the valid
/// addresses); the same request repeated afterwards gets the same response and
/// enqueues nothing, so a second drain finds the queue empty.
pub proof fn lemma_one_delivery_per_recipient(
    s: StoreModel,
    user_id: u128,
    f: FormModel,
    recipients: Seq<Seq<char>>,
    issue_id: u128,
    published_at: u64,
    recipients2: Seq<Seq<char>>,
    issue_id2: u128,
    published_at2: u64,
)
    requires
        outbox_inv(s.outbox),
        s.outbox.queue.len() == 0,
        missing_field(f) is None,
        claim_result(s.idempotency, (user_id, f.idempotency_key)) is Processing,
        publish_reply(s, user_id, f, recipients, issue_id) is Ok,
    ensures
        ({
            let s1 = publish_state(s, user_id, f, recipients, issue_id, published_at);
            let (o1, served) = drain(s1.outbox, s1.outbox.queue.len());
            let s2 = StoreModel { idempotency: s1.idempotency, outbox: o1 };
            &&& served == recipients.map_values(
                |e: Seq<char>| task_for(s1.outbox.issues, new_row(issue_id, e)),
            )
            &&& o1.queue.len() == 0
            &&& publish_reply(s2, user_id, f, recipients2, issue_id2) == publish_reply(
                s,
                user_id,
                f,
                recipients,
                issue_id,
            )
            &&& publish_state(s2, user_id, f, recipients2, issue_id2, published_at2) == s2
            &&& execute_step(s2.outbox).1 is None
        }),
{
    let s1 = publish_state(s, user_id, f, recipients, issue_id, published_at);
    lemma_publish_keeps_inv(s.outbox, issue_id, issue_of(f, published_at), recipients);
    let rows = recipients.map_values(|e: Seq<char>| new_row(issue_id, e));
    assert(s1.outbox.queue =~= rows);
    assert(none_claimed(s1.outbox.queue));
    lemma_drain(s1.outbox);
    assert(rows.map_values(|r: crate::outbox::QueueRow| task_for(s1.outbox.issues, r))
        =~= recipients.map_values(|e: Seq<char>| task_for(s1.outbox.issues, new_row(issue_id, e))));
    let (o1, served) = drain(s1.outbox, s1.outbox.queue.len());
    let s2 = StoreModel { idempotency: s1.idempotency, outbox: o1 };
    assert(s2.idempotency.contains_key((user_id, f.idempotency_key)));
}

} // verus!
