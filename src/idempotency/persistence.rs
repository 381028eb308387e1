//! The idempotency table: one record per (user, key), created "in flight"
//! when a request is first claimed and completed with the response it produced.
use crate::errors::StoreError;
use crate::idempotency::key::IdempotencyKey;
use crate::response::{status_valid, ResponseModel, StoredResponse, MAX_STATUS, MIN_STATUS};
use crate::table::{
    keys_unique, lemma_contains, lemma_index, lemma_push, lemma_remove, lemma_unique_push,
    lemma_update, to_map,
};
use vstd::prelude::*;

verus! {

/// The identity of a record: the acting user and the key.
pub type RecordKey = (u128, Seq<char>);

/// The content of the table: for each (user, key) that was claimed, `None`
/// while the claim is in flight, else the response it completed with.
pub type IdempotencyModel = Map<RecordKey, Option<ResponseModel>>;

struct IdempotencyRecord {
    user_id: u128,
    idempotency_key: String,
    response: Option<StoredResponse>,
    created_at: u64,
}

spec fn response_view(r: Option<StoredResponse>) -> Option<ResponseModel> {
    match r {
        Some(x) => Some(x@),
        None => None,
    }
}

spec fn entry(r: IdempotencyRecord) -> (RecordKey, Option<ResponseModel>) {
    ((r.user_id, r.idempotency_key@), response_view(r.response))
}

/// The right to run the side effect for one (user, key); it is resolved by
/// `commit_response` or given back by `abandon_claim`.
#[derive(Debug)]
pub struct ClaimHandle {
    pub user_id: u128,
    pub idempotency_key: String,
}

/// What `claim_or_replay` hands back.
#[derive(Debug)]
pub enum Claim {
    /// No record existed: one is now in flight and the caller must resolve it.
    Processing(ClaimHandle),
    /// The request was completed before: this is its response.
    Replay(StoredResponse),
    /// Another claim on the same (user, key) is still unresolved; ask again
    /// once it has been resolved.
    InFlight,
}

/// The content of a `Claim`.
pub enum ClaimModel {
    Processing(RecordKey),
    Replay(ResponseModel),
    InFlight,
}

impl View for Claim {
    type V = ClaimModel;

    open spec fn view(&self) -> ClaimModel {
        match self {
            Claim::Processing(h) => ClaimModel::Processing((h.user_id, h.idempotency_key@)),
            Claim::Replay(r) => ClaimModel::Replay(r@),
            Claim::InFlight => ClaimModel::InFlight,
        }
    }
}

/// What a claim on `k` yields in a table holding `m`.
pub open spec fn claim_result(m: IdempotencyModel, k: RecordKey) -> ClaimModel {
    if !m.contains_key(k) {
        ClaimModel::Processing(k)
    } else {
        match m[k] {
            Some(r) => ClaimModel::Replay(r),
            None => ClaimModel::InFlight,
        }
    }
}

/// The table after a claim on `k`: a record in flight is added if none was
/// there.
pub open spec fn claim_post(m: IdempotencyModel, k: RecordKey) -> IdempotencyModel {
    if !m.contains_key(k) {
        m.insert(k, None)
    } else {
        m
    }
}

/// A claim on `k` is waiting for its response.
pub open spec fn in_flight(m: IdempotencyModel, k: RecordKey) -> bool {
    m.contains_key(k) && m[k] is None
}

/// Every completed record holds a response with an HTTP status (100 to 999).
pub open spec fn statuses_valid(m: IdempotencyModel) -> bool {
    forall|k: RecordKey|
        #[trigger] m.contains_key(k) && m[k] is Some ==> status_valid(m[k]->0.status_code as int)
}

spec fn row_status_valid(row: (RecordKey, Option<ResponseModel>)) -> bool {
    row.1 is Some ==> status_valid(row.1->0.status_code as int)
}

/// The idempotency table, held in memory.
pub struct IdempotencyStore {
    records: Vec<IdempotencyRecord>,
}

impl IdempotencyStore {
    spec fn rows(&self) -> Seq<(RecordKey, Option<ResponseModel>)> {
        self.records@.map_values(|r: IdempotencyRecord| entry(r))
    }

    /// The table's invariant: at most one record per (user, key), and every
    /// stored response has an HTTP status.
    pub closed spec fn wf(&self) -> bool {
        &&& keys_unique(self.rows())
        &&& forall|i: int| 0 <= i < self.rows().len() ==> row_status_valid(#[trigger] self.rows()[i])
    }

    /// What the invariant says of the content: no response without an HTTP
    /// status is ever replayed.
    pub proof fn lemma_wf(&self)
        requires
            self.wf(),
        ensures
            statuses_valid(self@),
    {
        assert forall|k: RecordKey| #[trigger] self@.contains_key(k) && self@[k] is Some implies status_valid(
            self@[k]->0.status_code as int,
        ) by {
            lemma_contains(self.rows(), k);
            let i = choose|i: int| 0 <= i < self.rows().len() && #[trigger] self.rows()[i].0 == k;
            lemma_index(self.rows(), i);
            assert(row_status_valid(self.rows()[i]));
        }
    }

    /// An empty table.
    pub fn new() -> (r: IdempotencyStore)
        ensures
            r.wf(),
            r@ == Map::<RecordKey, Option<ResponseModel>>::empty(),
    {
        let r = IdempotencyStore { records: Vec::new() };
        assert(r.rows() =~= Seq::empty());
        r
    }

    fn find(&self, user_id: u128, key: &String) -> (r: Option<usize>)
        requires
            self.wf(),
        ensures
            r matches Some(i) ==> i < self.records.len() && self.rows()[i as int].0 == (
                user_id,
                key@,
            ),
            r is None ==> !self@.contains_key((user_id, key@)),
    {
        let mut i: usize = 0;
        while i < self.records.len()
            invariant
                i <= self.records.len(),
                forall|j: int| 0 <= j < i ==> #[trigger] self.rows()[j].0 != (user_id, key@),
            decreases self.records.len() - i,
        {
            if self.records[i].user_id == user_id && self.records[i].idempotency_key == *key {
                return Some(i);
            }
            i += 1;
        }
        proof {
            lemma_contains(self.rows(), (user_id, key@));
        }
        None
    }

    /// Claims `key` for `user_id`, or hands back what an earlier request with
    /// the same pair produced. A pair with no record gets one in flight and
    /// `Processing`; a completed record gives `Replay` of its response; a
    /// record in flight gives `InFlight`. `created_at` stamps a new record.
    pub fn claim_or_replay(&mut self, key: &IdempotencyKey, user_id: u128, created_at: u64) -> (r:
        Claim)
        requires
            old(self).wf(),
        ensures
            final(self).wf(),
            r@ == claim_result(old(self)@, (user_id, key@)),
            final(self)@ == claim_post(old(self)@, (user_id, key@)),
            r matches Claim::Replay(x) ==> status_valid(x.status_code as int),
    {
        let k = key.as_string();
        match self.find(user_id, k) {
            Some(i) => {
                proof {
                    lemma_index(self.rows(), i as int);
                }
                assert(row_status_valid(self.rows()[i as int]));
                match &self.records[i].response {
                    Some(resp) => Claim::Replay(resp.duplicate()),
                    None => Claim::InFlight,
                }
            },
            None => {
                let rec = IdempotencyRecord {
                    user_id,
                    idempotency_key: k.clone(),
                    response: None,
                    created_at,
                };
                proof {
                    lemma_unique_push(self.rows(), entry(rec));
                    lemma_push(self.rows(), entry(rec));
                }
                self.records.push(rec);
                assert(self.rows() =~= old(self).rows().push(entry(rec)));
                assert forall|j: int| 0 <= j < self.rows().len() implies row_status_valid(
                    #[trigger] self.rows()[j],
                ) by {
                    if j < old(self).rows().len() {
                        assert(self.rows()[j] == old(self).rows()[j]);
                    }
                }
                Claim::Processing(ClaimHandle { user_id, idempotency_key: k.clone() })
            },
        }
    }

    /// The stored response for (user, key), if that request was completed.
    pub fn get_saved_response(&self, key: &IdempotencyKey, user_id: u128) -> (r: Option<
        StoredResponse,
    >)
        requires
            self.wf(),
        ensures
            r is Some <==> (self@.contains_key((user_id, key@)) && self@[(user_id, key@)] is Some),
            r matches Some(x) ==> self@[(user_id, key@)] == Some(x@),
            r matches Some(x) ==> status_valid(x.status_code as int),
    {
        match self.find(user_id, key.as_string()) {
            Some(i) => {
                proof {
                    lemma_index(self.rows(), i as int);
                }
                assert(row_status_valid(self.rows()[i as int]));
                match &self.records[i].response {
                    Some(resp) => Some(resp.duplicate()),
                    None => None,
                }
            },
            None => None,
        }
    }

    /// Completes the claim `handle` with `response`, which later requests with
    /// the same (user, key) replay; hands back a copy of what was stored. A
    /// handle whose record is not in flight is refused, and so is a response
    /// whose status is not an HTTP status (the claim then stays in flight);
    /// either way nothing changes.
    pub fn commit_response(&mut self, handle: ClaimHandle, response: StoredResponse) -> (r: Result<
        StoredResponse,
        StoreError,
    >)
        requires
            old(self).wf(),
        ensures
            final(self).wf(),
            in_flight(old(self)@, (handle.user_id, handle.idempotency_key@)) && !status_valid(
                response.status_code as int,
            ) ==> {
                &&& r == Err::<StoredResponse, StoreError>(StoreError::InvalidStatus)
                &&& final(self)@ == old(self)@
            },
            in_flight(old(self)@, (handle.user_id, handle.idempotency_key@)) && status_valid(
                response.status_code as int,
            ) ==> {
                &&& r matches Ok(x) && x@ == response@
                &&& final(self)@ == old(self)@.insert(
                    (handle.user_id, handle.idempotency_key@),
                    Some(response@),
                )
            },
            !in_flight(old(self)@, (handle.user_id, handle.idempotency_key@)) ==> {
                &&& r == Err::<StoredResponse, StoreError>(StoreError::UnknownClaim)
                &&& final(self)@ == old(self)@
            },
    {
        match self.find(handle.user_id, &handle.idempotency_key) {
            Some(i) => {
                proof {
                    lemma_index(self.rows(), i as int);
                }
                if self.records[i].response.is_some() {
                    return Err(StoreError::UnknownClaim);
                }
                if response.status_code < MIN_STATUS || response.status_code > MAX_STATUS {
                    return Err(StoreError::InvalidStatus);
                }
                let copy = response.duplicate();
                let ghost k = (handle.user_id, handle.idempotency_key@);
                let rec = IdempotencyRecord {
                    user_id: handle.user_id,
                    idempotency_key: handle.idempotency_key,
                    response: Some(response),
                    created_at: self.records[i].created_at,
                };
                proof {
                    lemma_update(self.rows(), i as int, Some(copy@));
                }
                self.records.set(i, rec);
                assert(self.rows() =~= old(self).rows().update(
                    i as int,
                    (old(self).rows()[i as int].0, Some(copy@)),
                ));
                assert forall|j: int| 0 <= j < self.rows().len() implies row_status_valid(
                    #[trigger] self.rows()[j],
                ) by {
                    if j != i {
                        assert(self.rows()[j] == old(self).rows()[j]);
                    }
                }
                Ok(copy)
            },
            None => Err(StoreError::UnknownClaim),
        }
    }

    /// Gives back the claim `handle` without a response: its record is removed
    /// and a later request may claim the pair again. Returns whether a record
    /// in flight was removed; a completed record is kept.
    pub fn abandon_claim(&mut self, handle: &ClaimHandle) -> (r: bool)
        requires
            old(self).wf(),
        ensures
            final(self).wf(),
            r == in_flight(old(self)@, (handle.user_id, handle.idempotency_key@)),
            r ==> final(self)@ == old(self)@.remove((handle.user_id, handle.idempotency_key@)),
            !r ==> final(self)@ == old(self)@,
    {
        match self.find(handle.user_id, &handle.idempotency_key) {
            Some(i) => {
                proof {
                    lemma_index(self.rows(), i as int);
                }
                if self.records[i].response.is_some() {
                    return false;
                }
                proof {
                    lemma_remove(self.rows(), i as int);
                }
                self.records.remove(i);
                assert(self.rows() =~= old(self).rows().remove(i as int));
                assert forall|j: int| 0 <= j < self.rows().len() implies row_status_valid(
                    #[trigger] self.rows()[j],
                ) by {
                    let j2 = if j < i { j } else { j + 1 };
                    assert(self.rows()[j] == old(self).rows()[j2]);
                }
                true
            },
            None => false,
        }
    }
}

impl View for IdempotencyStore {
    type V = IdempotencyModel;

    closed spec fn view(&self) -> IdempotencyModel {
        to_map(self.rows())
    }
}

/// Arbitration: a (user, key) pair is claimed at most once. Whatever the
/// table held, after one claim on the pair a second claim on it is not granted
/// and changes nothing, as long as the first is not resolved.
pub proof fn lemma_single_claim(m: IdempotencyModel, k: RecordKey)
    ensures
        !(claim_result(claim_post(m, k), k) is Processing),
        claim_post(claim_post(m, k), k) == claim_post(m, k),
{
}

/// Identical answers: once the claim on a pair is completed with response `r`,
/// every later claim on the pair replays `r` and changes nothing.
pub proof fn lemma_claims_after_commit_replay(m: IdempotencyModel, k: RecordKey, r: ResponseModel)
    requires
        in_flight(m, k),
    ensures
        claim_result(m.insert(k, Some(r)), k) == ClaimModel::Replay(r),
        claim_post(m.insert(k, Some(r)), k) == m.insert(k, Some(r)),
{
}

} // verus!
