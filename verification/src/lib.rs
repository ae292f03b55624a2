//! Newsletter publishing with an exactly-once effect: an idempotency ledger,
//! a transactional outbox and the delivery workers that drain it.

pub mod appstate;
pub mod authentication;
pub mod configuration;
pub mod domain;
pub mod guarantees;
pub mod idempotency;
pub mod routes;
pub mod sequences;
pub mod store;
pub mod utils;
pub mod workers;

pub use workers::{idempotency_purge_worker, issue_delivery_worker};
