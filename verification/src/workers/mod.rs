//! The background workers: the one that delivers queued issues and the one
//! that keeps the idempotency ledger short.

pub mod idempotency_purge_worker;
pub mod issue_delivery_worker;
