//! Mutual-exclusion primitives: a blocking futex-based lock and a spinning
//! lock with the same interface.
//!
//! Nothing is claimed about the atomic lock words: other threads may race on
//! them, so their contents are outside what sequential contracts can pin
//! down. The primitives are still real: acquisition blocks (or spins) until
//! the compare-exchange succeeds, and release publishes with a store and, for
//! the blocking variant, a futex wake.
use core::sync::atomic::AtomicU32;
use core::sync::atomic::Ordering;
use vstd::prelude::*;

verus! {

/// Lock word value when the lock is free.
pub const LOCK_FREE: u32 = 0;

/// Lock word value while the lock is held.
pub const LOCK_HELD: u32 = 1;

/// Scoped mutual exclusion: `lock` returns a guard, `unlock` takes it back.
/// `lock` may block until the lock is free; fairness is not guaranteed and
/// neither variant is reentrant.
pub trait Lock: Sized {
    type Guard;

    fn new() -> Self;

    fn lock(&self) -> Self::Guard;

    fn unlock(&self, guard: Self::Guard);
}

/// Relies on core::sync::atomic::AtomicU32::compare_exchange (acquire on
/// success, relaxed on failure) and atomic_wait::wait: returns only once the
/// exchange `free` -> `held` has succeeded, sleeping on the futex word while
/// it reads `held`. Termination depends on other threads releasing the word,
/// so nothing more can be stated of it.
#[verifier::external_body]
fn exchange_or_sleep(state: &AtomicU32, free: u32, held: u32) {
    while state
        .compare_exchange(free, held, Ordering::Acquire, Ordering::Relaxed)
        .is_err()
    {
        atomic_wait::wait(state, held);
    }
}

/// Relies on core::sync::atomic::AtomicU32::compare_exchange (acquire on
/// success, relaxed on failure) and core::hint::spin_loop: returns only once
/// the exchange `free` -> `held` has succeeded, spinning while it fails.
#[verifier::external_body]
fn exchange_or_spin(state: &AtomicU32, free: u32, held: u32) {
    while state
        .compare_exchange(free, held, Ordering::Acquire, Ordering::Relaxed)
        .is_err()
    {
        core::hint::spin_loop();
    }
}

/// Relies on atomic_wait::wake_one: wakes at most one thread sleeping on the
/// word; has no other effect.
#[verifier::external_body]
fn wake_one_sleeper(state: &AtomicU32) {
    atomic_wait::wake_one(state);
}

/// Blocking mutual exclusion: a failed acquisition sleeps on the lock word
/// until a release wakes it.
#[derive(Debug)]
pub struct Futex {
    state: AtomicU32,
}

pub struct FutexGuard {
    _held: (),
}

impl Lock for Futex {
    type Guard = FutexGuard;

    fn new() -> Self {
        Futex { state: AtomicU32::new(LOCK_FREE) }
    }

    fn lock(&self) -> FutexGuard {
        exchange_or_sleep(&self.state, LOCK_FREE, LOCK_HELD);
        FutexGuard { _held: () }
    }

    fn unlock(&self, guard: FutexGuard) {
        let FutexGuard { _held: _ } = guard;
        self.state.store(LOCK_FREE, Ordering::Release);
        wake_one_sleeper(&self.state);
    }
}

/// Spinning mutual exclusion: identical contract to `Futex`, but a failed
/// acquisition spins with a CPU relaxation hint instead of sleeping.
#[derive(Debug)]
pub struct SpinLock {
    state: AtomicU32,
}

pub struct SpinLockGuard {
    _held: (),
}

impl Lock for SpinLock {
    type Guard = SpinLockGuard;

    fn new() -> Self {
        SpinLock { state: AtomicU32::new(LOCK_FREE) }
    }

    fn lock(&self) -> SpinLockGuard {
        exchange_or_spin(&self.state, LOCK_FREE, LOCK_HELD);
        SpinLockGuard { _held: () }
    }

    fn unlock(&self, guard: SpinLockGuard) {
        let SpinLockGuard { _held: _ } = guard;
        self.state.store(LOCK_FREE, Ordering::Release);
    }
}

} // verus!
