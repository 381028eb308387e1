//! The transactional outbox: newsletter issues, and the delivery queue that
//! holds one row per (issue, recipient) still to be served.
use crate::domain::subscriber_email::email_valid;
use crate::domain::SubscriberEmail;
use crate::errors::StoreError;
use crate::table::{keys_unique, lemma_contains, lemma_index, lemma_push, lemma_unique_push, to_map};
use vstd::prelude::*;

verus! {

/// The content of a newsletter issue.
pub struct IssueModel {
    pub title: Seq<char>,
    pub text_content: Seq<char>,
    pub html_content: Seq<char>,
    pub published_at: u64,
}

/// A delivery row: this recipient has not yet been served this issue.
/// `claimed` marks a row that a worker has locked and not yet resolved.
pub struct QueueRow {
    pub issue_id: u128,
    pub email: Seq<char>,
    pub claimed: bool,
}

/// The content of the outbox: issues by identifier, and the queue in the
/// order in which its rows were written.
pub struct OutboxModel {
    pub issues: Map<u128, IssueModel>,
    pub queue: Seq<QueueRow>,
}

/// The outbox's invariant: every row belongs to an issue that exists, and no
/// (issue, recipient) pair has two rows.
pub open spec fn outbox_inv(m: OutboxModel) -> bool {
    &&& forall|i: int| 0 <= i < m.queue.len() ==> m.issues.contains_key(#[trigger] m.queue[i].issue_id)
    &&& forall|i: int, j: int|
        0 <= i < m.queue.len() && 0 <= j < m.queue.len() && i != j ==> !same_row(
            #[trigger] m.queue[i],
            #[trigger] m.queue[j],
        )
}

/// Two rows name the same (issue, recipient) pair.
pub open spec fn same_row(a: QueueRow, b: QueueRow) -> bool {
    a.issue_id == b.issue_id && a.email == b.email
}

/// A fresh, unclaimed row for `email` under `issue_id`.
pub open spec fn new_row(issue_id: u128, email: Seq<char>) -> QueueRow {
    QueueRow { issue_id, email, claimed: false }
}

/// The outbox after `issue` is published as `issue_id` to `recipients`: the
/// issue is recorded and one unclaimed row per recipient is appended.
pub open spec fn publish_post(
    m: OutboxModel,
    issue_id: u128,
    issue: IssueModel,
    recipients: Seq<Seq<char>>,
) -> OutboxModel {
    OutboxModel {
        issues: m.issues.insert(issue_id, issue),
        queue: m.queue + recipients.map_values(|e: Seq<char>| new_row(issue_id, e)),
    }
}

/// The text of each address.
pub open spec fn addresses(v: Seq<String>) -> Seq<Seq<char>> {
    v.map_values(|e: String| e@)
}

/// Publishing keeps the invariant: under a fresh identifier, with distinct
/// recipients, every new row belongs to the new issue and no pair repeats.
pub proof fn lemma_publish_keeps_inv(
    m: OutboxModel,
    issue_id: u128,
    issue: IssueModel,
    recipients: Seq<Seq<char>>,
)
    requires
        outbox_inv(m),
        !m.issues.contains_key(issue_id),
        recipients.no_duplicates(),
    ensures
        outbox_inv(publish_post(m, issue_id, issue, recipients)),
{
    let p = publish_post(m, issue_id, issue, recipients);
    let n = m.queue.len();
    assert forall|i: int| 0 <= i < p.queue.len() implies p.issues.contains_key(
        #[trigger] p.queue[i].issue_id,
    ) by {
        if i < n {
            assert(p.queue[i] == m.queue[i]);
        }
    }
    assert forall|i: int, j: int|
        0 <= i < p.queue.len() && 0 <= j < p.queue.len() && i != j implies !same_row(
        #[trigger] p.queue[i],
        #[trigger] p.queue[j],
    ) by {
        if i < n && j < n {
            assert(p.queue[i] == m.queue[i] && p.queue[j] == m.queue[j]);
        } else if i < n {
            assert(p.queue[i] == m.queue[i]);
            assert(m.issues.contains_key(m.queue[i].issue_id));
        } else if j < n {
            assert(p.queue[j] == m.queue[j]);
            assert(m.issues.contains_key(m.queue[j].issue_id));
        } else {
            assert(p.queue[i].email == recipients[i - n] && p.queue[j].email == recipients[j - n]);
        }
    }
}

/// The number of rows that belong to `issue_id`.
pub open spec fn rows_of(q: Seq<QueueRow>, issue_id: u128) -> nat {
    q.filter(|r: QueueRow| r.issue_id == issue_id).len()
}

/// Some row is not claimed.
pub open spec fn has_unclaimed(q: Seq<QueueRow>) -> bool {
    exists|i: int| 0 <= i < q.len() && !(#[trigger] q[i]).claimed
}

/// `i` is the first row that is not claimed.
pub open spec fn is_first_unclaimed(q: Seq<QueueRow>, i: int) -> bool {
    0 <= i < q.len() && !q[i].claimed && forall|j: int| 0 <= j < i ==> (#[trigger] q[j]).claimed
}

/// The row that a worker takes next: the first one that no other worker holds.
pub open spec fn first_unclaimed(q: Seq<QueueRow>) -> int {
    choose|i: int| is_first_unclaimed(q, i)
}

/// An e-mail to be sent.
pub struct MessageModel {
    pub recipient: Seq<char>,
    pub subject: Seq<char>,
    pub html_content: Seq<char>,
    pub text_content: Seq<char>,
}

/// What serving a row means: the issue's title, HTML and text go to the row's
/// address, unless the address is invalid, in which case nothing is sent.
pub open spec fn delivery_for(issue: IssueModel, email: Seq<char>) -> Option<MessageModel> {
    if email_valid(email) {
        Some(
            MessageModel {
                recipient: email,
                subject: issue.title,
                html_content: issue.html_content,
                text_content: issue.text_content,
            },
        )
    } else {
        None
    }
}

/// A claimed row and what serving it takes.
pub struct TaskModel {
    pub issue_id: u128,
    pub email: Seq<char>,
    pub delivery: Option<MessageModel>,
}

/// The task for row `i`.
pub open spec fn task_at(m: OutboxModel, i: int) -> TaskModel {
    TaskModel {
        issue_id: m.queue[i].issue_id,
        email: m.queue[i].email,
        delivery: delivery_for(m.issues[m.queue[i].issue_id], m.queue[i].email),
    }
}

/// The outbox with row `i` claimed.
pub open spec fn claim_row(m: OutboxModel, i: int) -> OutboxModel {
    OutboxModel {
        issues: m.issues,
        queue: m.queue.update(i, QueueRow { claimed: true, ..m.queue[i] }),
    }
}

/// The claimed row for (issue, recipient) exists at index `i`.
pub open spec fn is_claimed_row(q: Seq<QueueRow>, issue_id: u128, email: Seq<char>, i: int) -> bool {
    0 <= i < q.len() && q[i].issue_id == issue_id && q[i].email == email && q[i].claimed
}

/// The outbox after the claimed row for (issue, recipient) is resolved: the
/// row is deleted. Nothing changes if no such claimed row exists.
pub open spec fn complete_post(m: OutboxModel, issue_id: u128, email: Seq<char>) -> OutboxModel {
    if exists|i: int| is_claimed_row(m.queue, issue_id, email, i) {
        let i = choose|i: int| is_claimed_row(m.queue, issue_id, email, i);
        OutboxModel { issues: m.issues, queue: m.queue.remove(i) }
    } else {
        m
    }
}

/// The outbox after the claim on (issue, recipient) is given up: the row is
/// pending again.
pub open spec fn release_post(m: OutboxModel, issue_id: u128, email: Seq<char>) -> OutboxModel {
    if exists|i: int| is_claimed_row(m.queue, issue_id, email, i) {
        let i = choose|i: int| is_claimed_row(m.queue, issue_id, email, i);
        OutboxModel {
            issues: m.issues,
            queue: m.queue.update(i, QueueRow { claimed: false, ..m.queue[i] }),
        }
    } else {
        m
    }
}

struct IssueRecord {
    issue_id: u128,
    title: String,
    text_content: String,
    html_content: String,
    published_at: u64,
}

spec fn issue_entry(r: IssueRecord) -> (u128, IssueModel) {
    (
        r.issue_id,
        IssueModel {
            title: r.title@,
            text_content: r.text_content@,
            html_content: r.html_content@,
            published_at: r.published_at,
        },
    )
}

struct QueueItem {
    issue_id: u128,
    subscriber_email: String,
    claimed: bool,
}

spec fn row_view(r: QueueItem) -> QueueRow {
    QueueRow { issue_id: r.issue_id, email: r.subscriber_email@, claimed: r.claimed }
}

/// An e-mail to send: a newsletter issue addressed to one recipient.
#[derive(Debug)]
pub struct EmailMessage {
    pub recipient: SubscriberEmail,
    pub subject: String,
    pub html_content: String,
    pub text_content: String,
}

impl View for EmailMessage {
    type V = MessageModel;

    open spec fn view(&self) -> MessageModel {
        MessageModel {
            recipient: self.recipient@,
            subject: self.subject@,
            html_content: self.html_content@,
            text_content: self.text_content@,
        }
    }
}

/// A queue row that this worker holds, and the e-mail that serving it takes
/// (`None` for an address that is not valid).
#[derive(Debug)]
pub struct ClaimedTask {
    pub issue_id: u128,
    pub subscriber_email: String,
    pub delivery: Option<EmailMessage>,
}

impl View for ClaimedTask {
    type V = TaskModel;

    open spec fn view(&self) -> TaskModel {
        TaskModel {
            issue_id: self.issue_id,
            email: self.subscriber_email@,
            delivery: match self.delivery {
                Some(m) => Some(m@),
                None => None,
            },
        }
    }
}

/// How the attempt to serve a row ended. It is reported for the record only:
/// the row is removed whatever it says.
#[derive(PartialEq, Eq, Structural, Debug, Clone, Copy)]
pub enum DeliveryOutcome {
    /// The transport accepted the e-mail.
    Sent,
    /// The transport failed; the e-mail is not sent again.
    TransportFailed,
    /// The address is not valid; nothing was sent.
    Skipped,
}

/// Newsletter issues and their delivery queue, held in memory.
pub struct Outbox {
    issues: Vec<IssueRecord>,
    queue: Vec<QueueItem>,
}

impl View for Outbox {
    type V = OutboxModel;

    closed spec fn view(&self) -> OutboxModel {
        OutboxModel { issues: to_map(self.issue_rows()), queue: self.queue_rows() }
    }
}

fn recipients_distinct(recipients: &Vec<String>) -> (r: bool)
    ensures
        r == addresses(recipients@).no_duplicates(),
{
    let ghost v = addresses(recipients@);
    let mut i: usize = 0;
    while i < recipients.len()
        invariant
            i <= recipients.len(),
            v == addresses(recipients@),
            forall|a: int, b: int| 0 <= a < i && 0 <= b < recipients.len() && a != b ==> v[a] != v[b],
        decreases recipients.len() - i,
    {
        let mut j: usize = 0;
        while j < recipients.len()
            invariant
                i < recipients.len(),
                j <= recipients.len(),
                v == addresses(recipients@),
                forall|a: int, b: int|
                    0 <= a < i && 0 <= b < recipients.len() && a != b ==> v[a] != v[b],
                forall|b: int| 0 <= b < j && b != i ==> v[i as int] != v[b],
            decreases recipients.len() - j,
        {
            if j != i && recipients[i] == recipients[j] {
                assert(v[i as int] == v[j as int]);
                return false;
            }
            j += 1;
        }
        i += 1;
    }
    true
}

impl Outbox {
    spec fn issue_rows(&self) -> Seq<(u128, IssueModel)> {
        self.issues@.map_values(|r: IssueRecord| issue_entry(r))
    }

    spec fn queue_rows(&self) -> Seq<QueueRow> {
        self.queue@.map_values(|r: QueueItem| row_view(r))
    }

    /// The outbox's invariant: issue identifiers are unique and
    /// `outbox_inv` holds of the content.
    pub closed spec fn wf(&self) -> bool {
        keys_unique(self.issue_rows()) && outbox_inv(self@)
    }

    /// What the invariant says of the content.
    pub proof fn lemma_wf(&self)
        requires
            self.wf(),
        ensures
            outbox_inv(self@),
    {
    }

    /// An empty outbox.
    pub fn new() -> (r: Outbox)
        ensures
            r.wf(),
            r@.issues == Map::<u128, IssueModel>::empty(),
            r@.queue == Seq::<QueueRow>::empty(),
    {
        let r = Outbox { issues: Vec::new(), queue: Vec::new() };
        assert(r.issue_rows() =~= Seq::empty());
        assert(r.queue_rows() =~= Seq::empty());
        r
    }

    /// The number of delivery rows, claimed or not.
    pub fn queue_len(&self) -> (r: usize)
        ensures
            r == self@.queue.len(),
    {
        self.queue.len()
    }

    /// The number of delivery rows of `issue_id`.
    pub fn pending_for(&self, issue_id: u128) -> (r: usize)
        ensures
            r == rows_of(self@.queue, issue_id),
    {
        let mut n: usize = 0;
        let mut i: usize = 0;
        while i < self.queue.len()
            invariant
                i <= self.queue.len(),
                n == rows_of(self@.queue.subrange(0, i as int), issue_id),
                n <= i,
            decreases self.queue.len() - i,
        {
            let ghost s = self@.queue.subrange(0, i as int);
            proof {
                assert(self@.queue.subrange(0, i + 1) =~= s.push(self@.queue[i as int]));
                let x = self@.queue[i as int];
                let p = |r: QueueRow| r.issue_id == issue_id;
                Seq::filter_distributes_over_add(s, seq![x], p);
                assert(s.push(x) =~= s + seq![x]);
                assert(seq![x].drop_last() =~= Seq::<QueueRow>::empty());
                reveal_with_fuel(Seq::filter, 2);
                assert(seq![x].filter(p) =~= if p(x) { seq![x] } else { Seq::empty() });
            }
            if self.queue[i].issue_id == issue_id {
                n += 1;
            }
            i += 1;
        }
        assert(self@.queue.subrange(0, i as int) =~= self@.queue);
        n
    }

    fn find_issue(&self, issue_id: u128) -> (r: Option<usize>)
        requires
            self.wf(),
        ensures
            r matches Some(i) ==> i < self.issues.len() && self.issue_rows()[i as int].0 == issue_id,
            r is None ==> !self@.issues.contains_key(issue_id),
    {
        let mut i: usize = 0;
        while i < self.issues.len()
            invariant
                i <= self.issues.len(),
                forall|j: int| 0 <= j < i ==> #[trigger] self.issue_rows()[j].0 != issue_id,
            decreases self.issues.len() - i,
        {
            if self.issues[i].issue_id == issue_id {
                return Some(i);
            }
            i += 1;
        }
        proof {
            lemma_contains(self.issue_rows(), issue_id);
        }
        None
    }
}


impl Outbox {
    /// Records `title`, `text_content` and `html_content` as issue `issue_id`
    /// and enqueues one delivery row for each of `recipients`, the confirmed
    /// addresses at this moment. All of it happens or none: an identifier
    /// that is taken, or a recipient named twice, leaves the outbox unchanged.
    pub fn publish_issue(
        &mut self,
        issue_id: u128,
        title: String,
        text_content: String,
        html_content: String,
        recipients: &Vec<String>,
        published_at: u64,
    ) -> (r: Result<u128, StoreError>)
        requires
            old(self).wf(),
        ensures
            final(self).wf(),
            old(self)@.issues.contains_key(issue_id) ==> r == Err::<u128, StoreError>(
                StoreError::DuplicateIssue,
            ) && final(self)@ == old(self)@,
            !old(self)@.issues.contains_key(issue_id) && !addresses(recipients@).no_duplicates() ==> r == Err::<u128, StoreError>(StoreError::DuplicateRecipient)
                && final(self)@ == old(self)@,
            !old(self)@.issues.contains_key(issue_id) && addresses(recipients@).no_duplicates() ==> r == Ok::<u128, StoreError>(issue_id) && final(self)@
                == publish_post(
                old(self)@,
                issue_id,
                IssueModel {
                    title: title@,
                    text_content: text_content@,
                    html_content: html_content@,
                    published_at,
                },
                addresses(recipients@),
            ),
    {
        if let Some(i) = self.find_issue(issue_id) {
            proof {
                lemma_index(self.issue_rows(), i as int);
            }
            return Err(StoreError::DuplicateIssue);
        }
        if !recipients_distinct(recipients) {
            return Err(StoreError::DuplicateRecipient);
        }
        let ghost rv = addresses(recipients@);
        let rec = IssueRecord { issue_id, title, text_content, html_content, published_at };
        proof {
            lemma_unique_push(self.issue_rows(), issue_entry(rec));
            lemma_push(self.issue_rows(), issue_entry(rec));
        }
        self.issues.push(rec);
        assert(self.issue_rows() =~= old(self).issue_rows().push(issue_entry(rec)));
        let mut k: usize = 0;
        while k < recipients.len()
            invariant
                k <= recipients.len(),
                rv == addresses(recipients@),
                rv.no_duplicates(),
                !old(self)@.issues.contains_key(issue_id),
                outbox_inv(old(self)@),
                keys_unique(self.issue_rows()),
                self@.issues == old(self)@.issues.insert(issue_id, issue_entry(rec).1),
                self@.queue == old(self)@.queue + rv.subrange(0, k as int).map_values(
                    |e: Seq<char>| new_row(issue_id, e),
                ),
            decreases recipients.len() - k,
        {
            let item = QueueItem {
                issue_id,
                subscriber_email: recipients[k].clone(),
                claimed: false,
            };
            let ghost prev = self.queue_rows();
            self.queue.push(item);
            assert(self.queue_rows() =~= prev.push(row_view(item)));
            assert(row_view(item) == new_row(issue_id, rv[k as int]));
            k += 1;
            assert(self@.queue =~= old(self)@.queue + rv.subrange(0, k as int).map_values(
                |e: Seq<char>| new_row(issue_id, e),
            ));
        }
        assert(rv.subrange(0, k as int) =~= rv);
        let ghost m = self@;
        let ghost n = old(self)@.queue.len();
        assert forall|i: int| 0 <= i < m.queue.len() implies m.issues.contains_key(
            #[trigger] m.queue[i].issue_id,
        ) by {
            if i < n {
                assert(m.queue[i] == old(self)@.queue[i]);
            }
        }
        assert forall|i: int, j: int|
            0 <= i < m.queue.len() && 0 <= j < m.queue.len() && i != j implies !same_row(
            #[trigger] m.queue[i],
            #[trigger] m.queue[j],
        ) by {
            if i < n && j < n {
                assert(m.queue[i] == old(self)@.queue[i] && m.queue[j] == old(self)@.queue[j]);
            } else if i < n {
                assert(m.queue[i] == old(self)@.queue[i]);
                assert(old(self)@.issues.contains_key(old(self)@.queue[i].issue_id));
            } else if j < n {
                assert(m.queue[j] == old(self)@.queue[j]);
                assert(old(self)@.issues.contains_key(old(self)@.queue[j].issue_id));
            } else {
                assert(m.queue[i].email == rv[i - n] && m.queue[j].email == rv[j - n]);
            }
        }
        Ok(issue_id)
    }
}


impl Outbox {
    fn issue_message(&self, issue_id: u128, email: &String) -> (r: Option<EmailMessage>)
        requires
            self.wf(),
            self@.issues.contains_key(issue_id),
        ensures
            match r {
                Some(m) => delivery_for(self@.issues[issue_id], email@) == Some(m@),
                None => delivery_for(self@.issues[issue_id], email@) is None,
            },
    {
        match self.find_issue(issue_id) {
            Some(i) => {
                proof {
                    lemma_index(self.issue_rows(), i as int);
                }
                match SubscriberEmail::parse(email.as_str()) {
                    Ok(recipient) => Some(
                        EmailMessage {
                            recipient,
                            subject: self.issues[i].title.clone(),
                            html_content: self.issues[i].html_content.clone(),
                            text_content: self.issues[i].text_content.clone(),
                        },
                    ),
                    Err(_) => None,
                }
            },
            None => None,
        }
    }

    /// Claims the first row that no worker holds, and says what serving it
    /// takes: the issue's e-mail to the row's address, or nothing for an
    /// invalid address. With every row held or none left, returns `None` and
    /// changes nothing.
    pub fn dequeue_task(&mut self) -> (r: Option<ClaimedTask>)
        requires
            old(self).wf(),
        ensures
            final(self).wf(),
            !has_unclaimed(old(self)@.queue) ==> r is None && final(self)@ == old(self)@,
            has_unclaimed(old(self)@.queue) ==> (r matches Some(t) && t@ == task_at(
                old(self)@,
                first_unclaimed(old(self)@.queue),
            )) && final(self)@ == claim_row(old(self)@, first_unclaimed(old(self)@.queue)),
    {
        let mut i: usize = 0;
        while i < self.queue.len() && self.queue[i].claimed
            invariant
                i <= self.queue.len(),
                forall|j: int| 0 <= j < i ==> (#[trigger] self@.queue[j]).claimed,
            decreases self.queue.len() - i,
        {
            i += 1;
        }
        if i == self.queue.len() {
            return None;
        }
        let ghost q = self@.queue;
        assert(is_first_unclaimed(q, i as int));
        let ghost c = first_unclaimed(q);
        assert(c == i) by {
            assert(is_first_unclaimed(q, c));
            if c < i {
                assert(q[c].claimed);
            }
            if c > i {
                assert(q[i as int].claimed);
            }
        }
        let issue_id = self.queue[i].issue_id;
        let email = self.queue[i].subscriber_email.clone();
        assert(self@.issues.contains_key(q[i as int].issue_id));
        let delivery = self.issue_message(issue_id, &email);
        let ghost prev = self.queue_rows();
        let item = QueueItem { issue_id, subscriber_email: email.clone(), claimed: true };
        self.queue.set(i, item);
        assert(self.queue_rows() =~= prev.update(i as int, row_view(item)));
        assert(self@ =~= claim_row(old(self)@, c));
        assert forall|a: int, b: int|
            0 <= a < self@.queue.len() && 0 <= b < self@.queue.len() && a != b implies !same_row(
            #[trigger] self@.queue[a],
            #[trigger] self@.queue[b],
        ) by {
            assert(same_row(self@.queue[a], q[a]) && same_row(self@.queue[b], q[b]));
        }
        assert forall|a: int| 0 <= a < self@.queue.len() implies self@.issues.contains_key(
            #[trigger] self@.queue[a].issue_id,
        ) by {
            assert(self@.queue[a].issue_id == q[a].issue_id);
        }
        Some(ClaimedTask { issue_id, subscriber_email: email, delivery })
    }

    fn find_claimed(&self, issue_id: u128, email: &String) -> (r: Option<usize>)
        requires
            self.wf(),
        ensures
            r matches Some(i) ==> i < self.queue.len() && is_claimed_row(
                self@.queue,
                issue_id,
                email@,
                i as int,
            ),
            r matches Some(i) ==> (choose|j: int| is_claimed_row(self@.queue, issue_id, email@, j))
                == i,
            r is None ==> !exists|j: int| is_claimed_row(self@.queue, issue_id, email@, j),
    {
        let mut i: usize = 0;
        while i < self.queue.len()
            invariant
                i <= self.queue.len(),
                self.wf(),
                forall|j: int| 0 <= j < i ==> !is_claimed_row(self@.queue, issue_id, email@, j),
            decreases self.queue.len() - i,
        {
            if self.queue[i].issue_id == issue_id && self.queue[i].subscriber_email == *email
                && self.queue[i].claimed {
                let ghost q = self@.queue;
                assert(is_claimed_row(q, issue_id, email@, i as int));
                let ghost c = choose|j: int| is_claimed_row(q, issue_id, email@, j);
                assert(is_claimed_row(q, issue_id, email@, c));
                assert(c == i) by {
                    if c != i {
                        assert(same_row(q[c], q[i as int]));
                        assert(outbox_inv(self@));
                        assert(!same_row(self@.queue[c], self@.queue[i as int]));
                    }
                }
                return Some(i);
            }
            i += 1;
        }
        None
    }

    /// Deletes the claimed row of `task`: it has been served, or given up.
    /// Nothing changes if this worker holds no such row.
    pub fn delete_task(&mut self, task: &ClaimedTask)
        requires
            old(self).wf(),
        ensures
            final(self).wf(),
            final(self)@ == complete_post(old(self)@, task.issue_id, task.subscriber_email@),
    {
        if let Some(i) = self.find_claimed(task.issue_id, &task.subscriber_email) {
            let ghost q = self@.queue;
            let ghost prev = self.queue_rows();
            self.queue.remove(i);
            assert(self.queue_rows() =~= prev.remove(i as int));
            assert(self@ =~= complete_post(old(self)@, task.issue_id, task.subscriber_email@));
            assert forall|a: int, b: int|
                0 <= a < self@.queue.len() && 0 <= b < self@.queue.len() && a != b implies !same_row(
                #[trigger] self@.queue[a],
                #[trigger] self@.queue[b],
            ) by {
                let a2 = if a < i { a } else { a + 1 };
                let b2 = if b < i { b } else { b + 1 };
                assert(self@.queue[a] == q[a2] && self@.queue[b] == q[b2]);
            }
            assert forall|a: int| 0 <= a < self@.queue.len() implies self@.issues.contains_key(
                #[trigger] self@.queue[a].issue_id,
            ) by {
                let a2 = if a < i { a } else { a + 1 };
                assert(self@.queue[a] == q[a2]);
            }
        }
    }

    /// Gives up the claim on the row of `task` without serving it: the row is
    /// pending again, for any worker to take. Nothing changes if this worker
    /// holds no such row.
    pub fn release_task(&mut self, task: &ClaimedTask)
        requires
            old(self).wf(),
        ensures
            final(self).wf(),
            final(self)@ == release_post(old(self)@, task.issue_id, task.subscriber_email@),
    {
        if let Some(i) = self.find_claimed(task.issue_id, &task.subscriber_email) {
            let ghost q = self@.queue;
            let ghost prev = self.queue_rows();
            let item = QueueItem {
                issue_id: task.issue_id,
                subscriber_email: task.subscriber_email.clone(),
                claimed: false,
            };
            self.queue.set(i, item);
            assert(self.queue_rows() =~= prev.update(i as int, row_view(item)));
            assert(self@ =~= release_post(old(self)@, task.issue_id, task.subscriber_email@));
            assert forall|a: int, b: int|
                0 <= a < self@.queue.len() && 0 <= b < self@.queue.len() && a != b implies !same_row(
                #[trigger] self@.queue[a],
                #[trigger] self@.queue[b],
            ) by {
                assert(same_row(self@.queue[a], q[a]) && same_row(self@.queue[b], q[b]));
            }
            assert forall|a: int| 0 <= a < self@.queue.len() implies self@.issues.contains_key(
                #[trigger] self@.queue[a].issue_id,
            ) by {
                assert(self@.queue[a].issue_id == q[a].issue_id);
            }
        }
    }
}

} // verus!
