use zero2prod::errors::StoreError;
use zero2prod::idempotency::{Claim, IdempotencyKey, IdempotencyStore};
use zero2prod::response::{see_other, ResponseRow, RowError, StoredResponse};

fn key(s: &str) -> IdempotencyKey {
    IdempotencyKey::parse(s.to_string()).unwrap()
}

fn sample_response() -> StoredResponse {
    StoredResponse {
        status_code: 303,
        headers: vec![
            ("location".to_string(), b"/admin/newsletter".to_vec()),
            ("set-cookie".to_string(), vec![0xff, 0x00, b'x']),
        ],
        body: b"see elsewhere".to_vec(),
    }
}

fn same(a: &StoredResponse, b: &StoredResponse) -> bool {
    a.status_code == b.status_code && a.headers == b.headers && a.body == b.body
}

#[test]
fn an_empty_key_is_rejected() {
    assert_eq!(
        IdempotencyKey::parse(String::new()).err().unwrap(),
        "The idempotency key cannot be empty"
    );
}

#[test]
fn a_key_of_fifty_bytes_is_rejected() {
    assert_eq!(
        IdempotencyKey::parse("k".repeat(50)).err().unwrap(),
        "The idempotency key must be shorter than 50 characters"
    );
    assert_eq!(key(&"k".repeat(49)).as_str(), "k".repeat(49));
}

#[test]
fn the_key_limit_counts_bytes() {
    // 25 two-byte characters make 50 bytes.
    assert!(IdempotencyKey::parse("é".repeat(25)).is_err());
    assert!(IdempotencyKey::parse("é".repeat(24)).is_ok());
}

#[test]
fn the_first_claim_processes_and_the_second_waits() {
    let mut store = IdempotencyStore::new();
    let k = key("abc");
    assert!(matches!(store.claim_or_replay(&k, 7, 1), Claim::Processing(_)));
    assert!(matches!(store.claim_or_replay(&k, 7, 2), Claim::InFlight));
    assert!(store.get_saved_response(&k, 7).is_none());
}

#[test]
fn a_key_belongs_to_its_user() {
    let mut store = IdempotencyStore::new();
    let k = key("abc");
    assert!(matches!(store.claim_or_replay(&k, 1, 1), Claim::Processing(_)));
    assert!(matches!(store.claim_or_replay(&k, 2, 1), Claim::Processing(_)));
}

#[test]
fn a_committed_response_is_replayed_byte_for_byte() {
    let mut store = IdempotencyStore::new();
    let k = key("abc");
    let handle = match store.claim_or_replay(&k, 7, 1) {
        Claim::Processing(h) => h,
        _ => panic!("expected a claim"),
    };
    let returned = store.commit_response(handle, sample_response()).unwrap();
    assert!(same(&returned, &sample_response()));
    match store.claim_or_replay(&k, 7, 2) {
        Claim::Replay(r) => assert!(same(&r, &sample_response())),
        _ => panic!("expected a replay"),
    }
    assert!(same(&store.get_saved_response(&k, 7).unwrap(), &sample_response()));
}

#[test]
fn committing_twice_is_refused() {
    let mut store = IdempotencyStore::new();
    let k = key("abc");
    let handle = match store.claim_or_replay(&k, 7, 1) {
        Claim::Processing(h) => h,
        _ => panic!("expected a claim"),
    };
    let again = zero2prod::idempotency::ClaimHandle {
        user_id: handle.user_id,
        idempotency_key: handle.idempotency_key.clone(),
    };
    store.commit_response(handle, sample_response()).unwrap();
    assert_eq!(
        store.commit_response(again, see_other("/")).err(),
        Some(StoreError::UnknownClaim)
    );
    assert!(same(&store.get_saved_response(&k, 7).unwrap(), &sample_response()));
}

#[test]
fn an_abandoned_claim_can_be_claimed_again() {
    let mut store = IdempotencyStore::new();
    let k = key("abc");
    let handle = match store.claim_or_replay(&k, 7, 1) {
        Claim::Processing(h) => h,
        _ => panic!("expected a claim"),
    };
    assert!(store.abandon_claim(&handle));
    assert!(!store.abandon_claim(&handle));
    assert!(matches!(store.claim_or_replay(&k, 7, 3), Claim::Processing(_)));
}

#[test]
fn see_other_sets_the_location() {
    let r = see_other("/admin/newsletter");
    assert_eq!(r.status_code, 303);
    assert_eq!(r.headers, vec![("location".to_string(), b"/admin/newsletter".to_vec())]);
    assert!(r.body.is_empty());
}

#[test]
fn a_response_row_holds_json_headers() {
    let row = see_other("/x").to_row().unwrap();
    assert_eq!(row.status_code, 303);
    assert_eq!(row.headers, br#"[["location",[47,120]]]"#.to_vec());
    assert!(row.body.is_empty());
}

#[test]
fn a_response_survives_its_row() {
    let row = sample_response().to_row().unwrap();
    let back = StoredResponse::from_row(&row).unwrap();
    assert!(same(&back, &sample_response()));
}

#[test]
fn a_status_outside_the_http_range_has_no_row() {
    let mut r = sample_response();
    r.status_code = 1000;
    assert!(r.to_row().is_none());
    r.status_code = 99;
    assert!(r.to_row().is_none());
}

#[test]
fn a_bad_row_is_refused() {
    let row = ResponseRow { status_code: -1, headers: b"[]".to_vec(), body: vec![] };
    assert_eq!(StoredResponse::from_row(&row).err(), Some(RowError::InvalidStatus));
    let row = ResponseRow { status_code: 200, headers: b"{".to_vec(), body: vec![] };
    assert_eq!(StoredResponse::from_row(&row).err(), Some(RowError::InvalidHeaders));
    let row = ResponseRow { status_code: 200, headers: b"[]".to_vec(), body: b"ok".to_vec() };
    let r = StoredResponse::from_row(&row).unwrap();
    assert_eq!(r.status_code, 200);
    assert!(r.headers.is_empty());
    assert_eq!(r.body, b"ok".to_vec());
}

#[test]
fn a_response_without_an_http_status_is_not_stored() {
    let mut store = IdempotencyStore::new();
    let k = key("abc");
    let handle = match store.claim_or_replay(&k, 7, 1) {
        Claim::Processing(h) => h,
        _ => panic!("expected a claim"),
    };
    let again = zero2prod::idempotency::ClaimHandle {
        user_id: handle.user_id,
        idempotency_key: handle.idempotency_key.clone(),
    };
    let mut bad = sample_response();
    bad.status_code = 1000;
    assert_eq!(store.commit_response(handle, bad).err(), Some(StoreError::InvalidStatus));
    // The claim is still in flight and nothing is replayed.
    assert!(store.get_saved_response(&k, 7).is_none());
    assert!(matches!(store.claim_or_replay(&k, 7, 2), Claim::InFlight));
    assert!(store.commit_response(again, sample_response()).is_ok());
    assert!(same(&store.get_saved_response(&k, 7).unwrap(), &sample_response()));
}

#[test]
fn every_valid_status_has_a_row() {
    for status in [100u16, 200, 303, 999] {
        let mut r = sample_response();
        r.status_code = status;
        let row = r.to_row().unwrap();
        assert_eq!(row.status_code as u16, status);
        assert_eq!(row.body, b"see elsewhere".to_vec());
    }
}
