use rcu::qsbr::{advance_qstate, Qsbr};
use rcu::utils::{Futex, SpinLock};

#[test]
fn can_make_qsbr_futex() {
    let _my_rcu = Qsbr::<Futex>::new();
}

#[test]
fn can_make_qsbr_spin() {
    let _my_rcu = Qsbr::<SpinLock>::new();
}

#[test]
fn single_threaded_register_futex() {
    let mut my_rcu = Qsbr::<Futex>::new();
    println!("{:?}", my_rcu);
    let _t_handle = my_rcu.register(1);
    println!("{:?}", my_rcu);
}

#[test]
fn single_threaded_register_spin() {
    let mut my_rcu = Qsbr::<SpinLock>::new();
    println!("{:?}", my_rcu);
    let _t_handle = my_rcu.register(1);
    println!("{:?}", my_rcu);
}

#[test]
fn register_starts_at_counter_base() {
    let mut eng = Qsbr::<Futex>::new();
    let h = eng.register(5);
    let snap = h.get_state(&eng);
    assert_eq!(snap, vec![(5, 10)]);
}

#[test]
fn quiescent_state_advances_counter() {
    let mut eng = Qsbr::<Futex>::new();
    let mut h = eng.register(5);
    h.quiescent_state(&mut eng);
    let snap = h.get_state(&eng);
    assert_eq!(snap, vec![(5, 11)]);
    h.quiescent_state(&mut eng);
    let snap = h.get_state(&eng);
    assert_eq!(snap, vec![(5, 12)]);
}

#[test]
fn registry_ascending_by_id() {
    let mut eng = Qsbr::<Futex>::new();
    let h9 = eng.register(9);
    let h2 = eng.register(2);
    let h7 = eng.register(7);
    let snap = h2.get_state(&eng);
    assert_eq!(snap, vec![(2, 10), (7, 10), (9, 10)]);
    assert!(!h9.unregister(&mut eng));
    assert!(!h7.unregister(&mut eng));
    let snap = h2.get_state(&eng);
    assert_eq!(snap, vec![(2, 10)]);
    assert!(h2.unregister(&mut eng));
}

#[test]
fn solo_register_unregister_leaves_registry_empty() {
    let mut eng = Qsbr::<Futex>::new();
    let h = eng.register(1);
    let done = h.unregister(&mut eng);
    assert!(done);
    let probe = eng.register(2);
    let snap = probe.get_state(&eng);
    assert_eq!(snap, vec![(2, 10)]);
    assert!(probe.unregister(&mut eng));
}

#[test]
fn solo_quiescent_sync_returns_promptly() {
    let mut eng = Qsbr::<Futex>::new();
    let mut h = eng.register(1);
    assert!(h.quiescent_sync(&mut eng));
    let snap = h.get_state(&eng);
    assert_eq!(snap, vec![(1, 11)]);
}

#[test]
fn bare_sync_counts_own_counter() {
    let mut eng = Qsbr::<Futex>::new();
    let h = eng.register(1);
    assert!(!h.sync(&eng));
}

#[test]
fn sync_on_empty_registry_passes() {
    let mut eng = Qsbr::<Futex>::new();
    let h = eng.register(1);
    let done = h.unregister(&mut eng);
    assert!(done);
    let probe = eng.register(8);
    let empty_snap: Vec<(u64, u32)> = Vec::new();
    assert_eq!(eng.try_sync(&empty_snap), None);
    assert!(probe.unregister(&mut eng));
}

#[test]
fn try_sync_waits_for_every_snapshotted_counter() {
    let mut eng = Qsbr::<Futex>::new();
    let mut h1 = eng.register(1);
    let mut h2 = eng.register(2);
    let snap = h1.get_state(&eng);
    assert_eq!(snap, vec![(1, 10), (2, 10)]);
    assert_eq!(eng.try_sync(&snap), Some(0));
    h1.quiescent_state(&mut eng);
    assert_eq!(eng.try_sync(&snap), Some(1));
    h2.quiescent_state(&mut eng);
    assert_eq!(eng.try_sync(&snap), None);
    assert!(!h1.unregister(&mut eng));
    assert!(h2.unregister(&mut eng));
}

#[test]
fn try_sync_skips_entries_newer_than_snapshot() {
    let mut eng = Qsbr::<Futex>::new();
    let h1 = eng.register(1);
    let snap = h1.get_state(&eng);
    assert!(h1.unregister(&mut eng));
    let h3 = eng.register(3);
    // id 3 was not in the snapshot and id 1 has left: nothing blocks.
    assert_eq!(eng.try_sync(&snap), None);
    assert!(h3.unregister(&mut eng));
}

#[test]
fn try_sync_treats_reserved_codes_as_quiescent() {
    let mut eng = Qsbr::<Futex>::new();
    let h1 = eng.register(1);
    // A peer snapshotted in a reserved state (here: syncing) never blocks,
    // even while its id is still registered.
    let snap: Vec<(u64, u32)> = vec![(1, 1)];
    assert_eq!(eng.try_sync(&snap), None);
    assert!(h1.unregister(&mut eng));
}

#[test]
fn try_drop_sync_skips_own_record() {
    let mut eng = Qsbr::<Futex>::new();
    let mut h1 = eng.register(1);
    let h2 = eng.register(2);
    let snap = h1.get_state(&eng);
    // Teardown of 1 never waits on its own record, but waits on 2.
    assert_eq!(eng.try_drop_sync(&snap, 1), Some((1, false)));
    // Teardown of 2 waits on 1.
    assert_eq!(eng.try_drop_sync(&snap, 2), Some((0, false)));
    h1.quiescent_state(&mut eng);
    assert_eq!(eng.try_drop_sync(&snap, 2), None);
    assert!(!h1.unregister(&mut eng));
    assert!(h2.unregister(&mut eng));
}

#[test]
fn concurrent_style_drops_leave_third_entry() {
    let mut eng = Qsbr::<Futex>::new();
    let h1 = eng.register(1);
    let h2 = eng.register(2);
    let mut h3 = eng.register(3);
    // Two handles leave while a third is still registered with a live
    // counter: both teardowns complete (reporting that a peer had not yet
    // announced), and only the third's record remains.
    assert!(!h1.unregister(&mut eng));
    assert!(!h2.unregister(&mut eng));
    let snap = h3.get_state(&eng);
    assert_eq!(snap, vec![(3, 10)]);
    assert!(h3.quiescent_sync(&mut eng));
    assert!(h3.unregister(&mut eng));
}

#[test]
fn wrap_guard_resets_counter() {
    assert_eq!(advance_qstate(10), 11);
    assert_eq!(advance_qstate(u32::MAX / 2), u32::MAX / 2 + 1);
    assert_eq!(advance_qstate(u32::MAX / 2 + 1), 10);
    assert_eq!(advance_qstate(u32::MAX), 10);
}

#[test]
fn sync_terminates_across_wrap() {
    // A snapshot that saw the counter just past the wrap threshold observes
    // the reset to the counter base as progress.
    let mut eng = Qsbr::<Futex>::new();
    let h = eng.register(1);
    let high = u32::MAX / 2 + 1;
    let snap: Vec<(u64, u32)> = vec![(1, high)];
    // The live record holds 10, the snapshot holds the pre-wrap value:
    // the counter has moved, so nothing blocks.
    assert_eq!(eng.try_sync(&snap), None);
    assert!(h.unregister(&mut eng));
}

#[test]
fn read_guard_scopes_section() {
    let mut eng = Qsbr::<Futex>::new();
    let mut h = eng.register(4);
    {
        let _guard = h.read();
        let _second = h.read();
    }
    // Guards dropped: announcements are possible again.
    h.quiescent_state(&mut eng);
    let snap = h.get_state(&eng);
    assert_eq!(snap, vec![(4, 11)]);
}
