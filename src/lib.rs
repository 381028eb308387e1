//! Newsletter delivery core: an idempotency store that replays the response of
//! a repeated side-effecting request, a transactional outbox that records an
//! issue together with one delivery row per recipient, and the decisions of the
//! worker that drains those rows.
pub mod authentication;
pub mod domain;
pub mod errors;
pub mod idempotency;
pub mod issue_delivery_worker;
pub mod newsletter;
pub mod outbox;
pub mod response;
pub mod subscriptions;
pub mod table;
