use std::sync::atomic::{AtomicU16, Ordering};

use p3_lib::locks::{is_multiplayer, lock_taken, release_outcome, try_lock, unlock, LOCK_FREE, LOCK_HELD};

#[test]
fn try_lock_takes_a_free_lock_once() {
    let lock = AtomicU16::new(LOCK_FREE);
    assert!(try_lock(&lock));
    assert_eq!(lock.load(Ordering::SeqCst), LOCK_HELD);
    assert!(!try_lock(&lock));
    assert_eq!(lock.load(Ordering::SeqCst), LOCK_HELD);
}

#[test]
fn unlock_frees_a_held_lock() {
    let lock = AtomicU16::new(LOCK_FREE);
    assert!(try_lock(&lock));
    assert_eq!(unlock(&lock), Ok(()));
    assert_eq!(lock.load(Ordering::SeqCst), LOCK_FREE);
    assert!(try_lock(&lock));
}

#[test]
fn unlock_of_a_dirty_lock_reports_its_value() {
    let lock = AtomicU16::new(LOCK_FREE);
    assert_eq!(unlock(&lock), Err(0));
    let lock = AtomicU16::new(7);
    assert_eq!(unlock(&lock), Err(7));
    assert_eq!(lock.load(Ordering::SeqCst), LOCK_FREE);
}

#[test]
fn outcomes_of_the_lock_operations() {
    assert!(lock_taken(Ok(0)));
    assert!(!lock_taken(Err(1)));
    assert_eq!(release_outcome(1), Ok(()));
    assert_eq!(release_outcome(0), Err(0));
    assert_eq!(release_outcome(5), Err(5));
}

#[test]
fn multiplayer_status_bits() {
    assert!(is_multiplayer(0x04));
    assert!(is_multiplayer(0x08));
    assert!(is_multiplayer(0xff));
    assert!(!is_multiplayer(0x03));
    assert!(!is_multiplayer(0));
}
