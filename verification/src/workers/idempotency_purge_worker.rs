//! The worker that removes ledger rows once they are older than the
//! retention window.

use crate::idempotency::persistence::purged;
use crate::store::{Store, StoreView};
use vstd::prelude::*;

verus! {

/// How long the worker waits after a cycle in which the store failed.
pub const FAILED_PURGE_PAUSE_SECS: u64 = 1;

/// The seconds that the worker waits for each minute of retention after a
/// cycle that went well: half the window.
pub const PAUSE_SECS_PER_MINUTE: u64 = 30;

/// The seconds in a minute.
pub const SECS_PER_MINUTE: u64 = 60;

/// Whether a row that was created at `created_at` has outlived a retention
/// of `expired_minutes` at the time `now`. Times are in seconds.
pub open spec fn is_expired(created_at: u64, now: u64, expired_minutes: u64) -> bool {
    created_at + expired_minutes * SECS_PER_MINUTE < now
}

/// The time before which a row has outlived its retention: `now` less the
/// window, and zero where the window reaches back further than time does.
pub open spec fn cutoff(now: u64, expired_minutes: u64) -> u64 {
    if expired_minutes * SECS_PER_MINUTE <= now {
        (now - expired_minutes * SECS_PER_MINUTE) as u64
    } else {
        0
    }
}

/// A row was created before the cutoff exactly where it has outlived the
/// retention window.
pub proof fn lemma_cutoff(created_at: u64, now: u64, expired_minutes: u64)
    ensures
        created_at < cutoff(now, expired_minutes) <==> is_expired(created_at, now, expired_minutes),
{
}

/// The time before which a row has outlived its retention: see [`cutoff`].
pub fn purge_cutoff(now: u64, expired_minutes: u64) -> (older_than: u64)
    ensures
        older_than == cutoff(now, expired_minutes),
{
    match expired_minutes.checked_mul(SECS_PER_MINUTE) {
        Some(window) => if window <= now {
            now - window
        } else {
            0
        },
        None => 0,
    }
}

/// One cycle of the worker: removes every ledger row that has outlived a
/// retention of `expired_minutes` at the time `now`, and says how many rows
/// that were.
pub fn purge_expired_idempotencies(store: &mut Store, now: u64, expired_minutes: u64) -> (count: u64)
    requires
        old(store).wf(),
    ensures
        final(store).wf(),
        final(store)@ == (StoreView {
            ledger: purged(old(store)@.ledger, cutoff(now, expired_minutes)),
            ..old(store)@
        }),
        count == old(store)@.ledger.len() - final(store)@.ledger.len(),
{
    store.purge_idempotency(purge_cutoff(now, expired_minutes))
}

/// The seconds that the worker waits after a cycle: half the retention
/// window after one that went well, one second after one in which the store
/// failed.
pub open spec fn purge_pause_seconds(went_well: bool, expired_minutes: u64) -> int {
    if went_well {
        expired_minutes * PAUSE_SECS_PER_MINUTE
    } else {
        FAILED_PURGE_PAUSE_SECS as int
    }
}

/// How long the worker waits before its next cycle: see
/// [`purge_pause_seconds`]. The pause must be one that a machine word holds.
pub fn pause_after_purge(went_well: bool, expired_minutes: u64) -> (seconds: u64)
    requires
        expired_minutes * PAUSE_SECS_PER_MINUTE <= u64::MAX,
    ensures
        seconds == purge_pause_seconds(went_well, expired_minutes),
{
    if went_well {
        expired_minutes * PAUSE_SECS_PER_MINUTE
    } else {
        FAILED_PURGE_PAUSE_SECS
    }
}

} // verus!
