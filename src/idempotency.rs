//! Deduplication of side-effecting requests by a client-supplied key.
pub mod key;
pub mod persistence;

pub use key::IdempotencyKey;
pub use persistence::{Claim, ClaimHandle, IdempotencyStore};
