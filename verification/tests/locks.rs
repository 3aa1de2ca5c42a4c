use rcu::utils::{Futex, Lock, SpinLock};

#[test]
fn futex_lock_roundtrip() {
    let l = Futex::new();
    let g = l.lock();
    l.unlock(g);
    let g2 = l.lock();
    l.unlock(g2);
}

#[test]
fn spin_lock_roundtrip() {
    let l = SpinLock::new();
    let g = l.lock();
    l.unlock(g);
    let g2 = l.lock();
    l.unlock(g2);
}
