//! The spin locks that guard the game's operation queues in multiplayer games:
//! a lock word is 0 when free and 1 when held.
use std::sync::atomic::{AtomicU16, Ordering};

use vstd::prelude::*;

verus! {

/// The value of a free lock.
pub const LOCK_FREE: u16 = 0;

/// The value of a held lock.
pub const LOCK_HELD: u16 = 1;

/// std's `AtomicU16::compare_exchange` (sequentially consistent): stores `new`
/// if the atomic holds `current`. As std documents it, the result is `Ok` with
/// the previous value, which equals `current`, when it stored, and `Err` with
/// the previous value, which differs from `current`, when it did not. Which of
/// the two comes back depends on the other threads and is not stated.
#[verifier::external_body]
fn compare_exchange(lock: &AtomicU16, current: u16, new: u16) -> (res: Result<u16, u16>)
    ensures
        res matches Ok(previous) ==> previous == current,
        res matches Err(previous) ==> previous != current,
{
    lock.compare_exchange(current, new, Ordering::SeqCst, Ordering::SeqCst)
}

/// Whether taking a lock succeeded, given what the exchange from free to held
/// returned: it did exactly when the lock was free.
pub fn lock_taken(outcome: Result<u16, u16>) -> (taken: bool)
    requires
        outcome matches Ok(previous) ==> previous == LOCK_FREE,
        outcome matches Err(previous) ==> previous != LOCK_FREE,
    ensures
        taken == (outcome is Ok),
        taken <==> (outcome matches Ok(previous) && previous == LOCK_FREE),
{
    outcome.is_ok()
}

/// Takes the lock if it is free, and says whether it did; a `true` answer means
/// that the lock was free and is now held by the caller. Which answer comes back
/// depends on the lock word, which other threads share and which Verus cannot
/// see, so no clause states it; `lock_taken` states what each outcome of the
/// exchange means.
pub fn try_lock(lock: &AtomicU16) -> (taken: bool) {
    let outcome = compare_exchange(lock, LOCK_FREE, LOCK_HELD);
    lock_taken(outcome)
}

/// The outcome of releasing a lock whose previous value was `previous`: fine if
/// it was held, otherwise the lock was dirty and the previous value is the
/// error.
pub fn release_outcome(previous: u16) -> (res: Result<(), u16>)
    ensures
        res is Ok <==> previous == LOCK_HELD,
        res matches Err(p) ==> p == previous,
{
    if previous != LOCK_HELD {
        Err(previous)
    } else {
        Ok(())
    }
}

/// Frees the lock. A lock that was not held (a dirty lock) is freed all the
/// same, and its previous value is returned as the error. Whether the lock was
/// held depends on the shared lock word, which Verus cannot see, so only what
/// holds of every outcome is stated; `release_outcome` states the decision.
pub fn unlock(lock: &AtomicU16) -> (res: Result<(), u16>)
    ensures
        res matches Err(previous) ==> previous != LOCK_HELD,
{
    let previous = lock.swap(LOCK_FREE, Ordering::SeqCst);
    release_outcome(previous)
}

/// Whether the game runs a multiplayer session, from the operation queues'
/// status word: only then do releases go through the lock's check; otherwise
/// the lock word is simply cleared.
pub fn is_multiplayer(status: u32) -> (r: bool)
    ensures
        r == (status & 0x0c != 0),
{
    status & 0x0c != 0
}

} // verus!
