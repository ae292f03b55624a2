//! The idempotency ledger and the byte format its saved responses are kept in.

pub mod http_headers;
pub mod key;
pub mod persistence;
pub mod response;

pub use http_headers::{DecodeError, HeaderPairRecord, Headers};
pub use key::{IdempotencyKey, InvalidKey};
pub use persistence::{next_action, Ledger, LedgerError, NextAction};
pub use response::{ReplayError, SavedResponse};
