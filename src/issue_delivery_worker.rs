//! The delivery worker's decisions. One iteration claims a row
//! (`Outbox::dequeue_task`), has the caller send the e-mail it names, if any,
//! and resolves the row (`complete_task`) whatever the transport said.
use crate::outbox::{
    claim_row, complete_post, delivery_for, first_unclaimed, has_unclaimed, is_claimed_row,
    is_first_unclaimed, new_row, outbox_inv, publish_post, rows_of, same_row, task_at,
    ClaimedTask, DeliveryOutcome, IssueModel, Outbox, OutboxModel, QueueRow, TaskModel,
};
use vstd::prelude::*;

verus! {

/// How one iteration of the worker ended.
#[derive(PartialEq, Eq, Structural, Debug, Clone, Copy)]
pub enum ExecutionOutcome {
    /// A row was claimed, served or given up, and deleted.
    TaskCompleted,
    /// No row was free to claim.
    EmptyQueue,
}

/// Seconds to wait after an iteration that found the queue empty.
pub const EMPTY_QUEUE_DELAY_SECS: u64 = 10;

/// Seconds to wait after an iteration that failed unexpectedly.
pub const ERROR_DELAY_SECS: u64 = 1;

/// Resolves `task` after its delivery was attempted: the row is deleted
/// whatever `outcome` reports. A failed send is not retried and a skipped
/// address is not looked at again.
pub fn complete_task(outbox: &mut Outbox, task: &ClaimedTask, outcome: DeliveryOutcome) -> (r:
    ExecutionOutcome)
    requires
        old(outbox).wf(),
    ensures
        final(outbox).wf(),
        final(outbox)@ == complete_post(old(outbox)@, task.issue_id, task.subscriber_email@),
        r == ExecutionOutcome::TaskCompleted,
{
    outbox.delete_task(task);
    ExecutionOutcome::TaskCompleted
}

/// The outcome of an iteration whose claim returned `task`.
pub fn outcome_of(task: &Option<ClaimedTask>) -> (r: ExecutionOutcome)
    ensures
        r == (if task is Some {
            ExecutionOutcome::TaskCompleted
        } else {
            ExecutionOutcome::EmptyQueue
        }),
{
    match task {
        Some(_) => ExecutionOutcome::TaskCompleted,
        None => ExecutionOutcome::EmptyQueue,
    }
}

/// How long the worker waits before its next iteration: not at all after a
/// completed task, 10 seconds after finding the queue empty, 1 second after an
/// unexpected failure (`None`).
pub fn next_poll_delay_secs(outcome: Option<ExecutionOutcome>) -> (r: u64)
    ensures
        outcome == Some(ExecutionOutcome::TaskCompleted) ==> r == 0,
        outcome == Some(ExecutionOutcome::EmptyQueue) ==> r == EMPTY_QUEUE_DELAY_SECS,
        outcome is None ==> r == ERROR_DELAY_SECS,
{
    match outcome {
        Some(ExecutionOutcome::TaskCompleted) => 0,
        Some(ExecutionOutcome::EmptyQueue) => EMPTY_QUEUE_DELAY_SECS,
        None => ERROR_DELAY_SECS,
    }
}

/// One iteration on an outbox holding `m`: the first free row is claimed and
/// then deleted, and the task it gave is returned; `None` when no row is free.
pub open spec fn execute_step(m: OutboxModel) -> (OutboxModel, Option<TaskModel>) {
    if !has_unclaimed(m.queue) {
        (m, None)
    } else {
        let t = task_at(m, first_unclaimed(m.queue));
        (complete_post(claim_row(m, first_unclaimed(m.queue)), t.issue_id, t.email), Some(t))
    }
}

/// At most `n` iterations, stopping at the first that finds no free row: the
/// outbox after them and the tasks they served, in order.
pub open spec fn drain(m: OutboxModel, n: nat) -> (OutboxModel, Seq<TaskModel>)
    decreases n,
{
    if n == 0 {
        (m, Seq::empty())
    } else {
        let (m1, t) = execute_step(m);
        match t {
            None => (m1, Seq::empty()),
            Some(t) => {
                let (m2, ts) = drain(m1, (n - 1) as nat);
                (m2, seq![t] + ts)
            },
        }
    }
}

/// The task that serving row `r` takes.
pub open spec fn task_for(issues: Map<u128, IssueModel>, r: QueueRow) -> TaskModel {
    TaskModel {
        issue_id: r.issue_id,
        email: r.email,
        delivery: delivery_for(issues[r.issue_id], r.email),
    }
}

/// No row is held by a worker.
pub open spec fn none_claimed(q: Seq<QueueRow>) -> bool {
    forall|i: int| 0 <= i < q.len() ==> !(#[trigger] q[i]).claimed
}

/// Draining: on an outbox where no row is held, iterating until the queue
/// reports empty takes one iteration per row and leaves no row behind; each
/// row is served exactly once, in queue order, and its e-mail goes out exactly
/// when its address is valid (an invalid one is deleted with nothing sent).
pub proof fn lemma_drain(m: OutboxModel)
    requires
        outbox_inv(m),
        none_claimed(m.queue),
    ensures
        drain(m, m.queue.len()).0.queue.len() == 0,
        drain(m, m.queue.len()).0.issues == m.issues,
        execute_step(drain(m, m.queue.len()).0).1 is None,
        drain(m, m.queue.len()).1 == m.queue.map_values(|r: QueueRow| task_for(m.issues, r)),
    decreases m.queue.len(),
{
    let q = m.queue;
    if q.len() == 0 {
        assert(!has_unclaimed(q));
        assert(q.map_values(|r: QueueRow| task_for(m.issues, r)) =~= Seq::<TaskModel>::empty());
    } else {
        assert(has_unclaimed(q)) by {
            assert(!q[0].claimed);
        }
        assert(is_first_unclaimed(q, 0));
        let c = first_unclaimed(q);
        assert(c == 0) by {
            assert(is_first_unclaimed(q, c));
            if c > 0 {
                assert(q[0].claimed);
            }
        }
        let t = task_at(m, 0);
        let mc = claim_row(m, 0);
        assert(is_claimed_row(mc.queue, t.issue_id, t.email, 0));
        let k = choose|j: int| is_claimed_row(mc.queue, t.issue_id, t.email, j);
        assert(k == 0) by {
            assert(is_claimed_row(mc.queue, t.issue_id, t.email, k));
            if k != 0 {
                assert(mc.queue[k] == q[k]);
                assert(!q[k].claimed);
            }
        }
        let m1 = OutboxModel { issues: m.issues, queue: q.drop_first() };
        assert(mc.queue.remove(0) =~= q.drop_first());
        assert(execute_step(m) == (m1, Some(t)));
        assert(outbox_inv(m1)) by {
            assert forall|i: int| 0 <= i < m1.queue.len() implies m1.issues.contains_key(
                #[trigger] m1.queue[i].issue_id,
            ) by {
                assert(m1.queue[i] == q[i + 1]);
            }
            assert forall|i: int, j: int|
                0 <= i < m1.queue.len() && 0 <= j < m1.queue.len() && i != j implies !same_row(
                #[trigger] m1.queue[i],
                #[trigger] m1.queue[j],
            ) by {
                assert(m1.queue[i] == q[i + 1] && m1.queue[j] == q[j + 1]);
            }
        }
        assert(none_claimed(m1.queue)) by {
            assert forall|i: int| 0 <= i < m1.queue.len() implies !(#[trigger] m1.queue[i]).claimed by {
                assert(m1.queue[i] == q[i + 1]);
            }
        }
        lemma_drain(m1);
        assert(m1.queue.len() == (q.len() - 1) as nat);
        assert(t == task_for(m.issues, q[0]));
        assert(q.map_values(|r: QueueRow| task_for(m.issues, r)) =~= seq![t] + m1.queue.map_values(
            |r: QueueRow| task_for(m.issues, r),
        ));
    }
}

/// No retry: resolving a claimed row deletes it whatever became of its
/// delivery, and every other row stays, in order and as it was, for the next
/// iterations to take.
pub proof fn lemma_resolved_row_is_gone(m: OutboxModel, issue_id: u128, email: Seq<char>, i: int)
    requires
        outbox_inv(m),
        is_claimed_row(m.queue, issue_id, email, i),
    ensures
        complete_post(m, issue_id, email).queue == m.queue.remove(i),
        complete_post(m, issue_id, email).issues == m.issues,
        forall|j: int|
            0 <= j < complete_post(m, issue_id, email).queue.len() ==> !same_row(
                #[trigger] complete_post(m, issue_id, email).queue[j],
                m.queue[i],
            ),
{
    let k = choose|j: int| is_claimed_row(m.queue, issue_id, email, j);
    assert(k == i) by {
        assert(is_claimed_row(m.queue, issue_id, email, k));
        if k != i {
            assert(same_row(m.queue[k], m.queue[i]));
        }
    }
    let r = m.queue.remove(i);
    assert forall|j: int| 0 <= j < r.len() implies !same_row(#[trigger] r[j], m.queue[i]) by {
        let j2 = if j < i { j } else { j + 1 };
        assert(r[j] == m.queue[j2]);
    }
}

proof fn lemma_filter_all<A>(s: Seq<A>, p: spec_fn(A) -> bool)
    requires
        forall|i: int| 0 <= i < s.len() ==> p(#[trigger] s[i]),
    ensures
        s.filter(p) == s,
    decreases s.len(),
{
    reveal(Seq::filter);
    if s.len() > 0 {
        lemma_filter_all(s.drop_last(), p);
        assert(s.drop_last().push(s.last()) =~= s);
    }
}

/// Enqueueing: publishing an issue under a fresh identifier leaves exactly
/// one delivery row per recipient of that issue.
pub proof fn lemma_publish_enqueues_each_recipient(
    m: OutboxModel,
    issue_id: u128,
    issue: IssueModel,
    recipients: Seq<Seq<char>>,
)
    requires
        outbox_inv(m),
        !m.issues.contains_key(issue_id),
    ensures
        rows_of(m.queue, issue_id) == 0,
        rows_of(publish_post(m, issue_id, issue, recipients).queue, issue_id) == recipients.len(),
{
    let p = |r: QueueRow| r.issue_id == issue_id;
    assert(m.queue.all(|r: QueueRow| !p(r))) by {
        assert forall|i: int| 0 <= i < m.queue.len() implies !p(#[trigger] m.queue[i]) by {
            assert(m.issues.contains_key(m.queue[i].issue_id));
        }
    }
    m.queue.lemma_all_neg_filter_empty(p);
    let added = recipients.map_values(|e: Seq<char>| new_row(issue_id, e));
    Seq::filter_distributes_over_add(m.queue, added, p);
    lemma_filter_all(added, p);
    assert(m.queue.filter(p) + added =~= added);
}

} // verus!
