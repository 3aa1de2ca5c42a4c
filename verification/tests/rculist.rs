use rcu::qsbr::Qsbr;
use rcu::rculist::{RcuList, RcuListIterator};
use rcu::utils::{Futex, SpinLock};

fn collect(list: &RcuList<u32, Futex>, guard: &rcu::qsbr::QsbrGuard<'_>) -> Vec<u32> {
    let mut it = RcuListIterator::new(guard, list);
    let mut out = Vec::new();
    while let Some(v) = it.next(list) {
        out.push(v);
    }
    out
}

#[test]
fn solo_insert_remove() {
    let mut eng = Qsbr::<Futex>::new();
    let mut list = RcuList::<u32, Futex>::new();
    let mut h = eng.register(1);
    list.insert(42);
    {
        let guard = h.read();
        assert_eq!(collect(&list, &guard), vec![42]);
    }
    let removed = list.remove(&42, &mut eng, &mut h);
    assert_eq!(removed, 42);
    {
        let guard = h.read();
        assert_eq!(collect(&list, &guard), Vec::<u32>::new());
    }
    assert!(h.unregister(&mut eng));
}

#[test]
fn insert_distinct_ids_sorted() {
    let mut eng = Qsbr::<Futex>::new();
    let mut list = RcuList::<u32, Futex>::new();
    // Twenty participants, each inserting its id; arrival order scrambled.
    for i in (0..20u64).rev() {
        let mut h = eng.register(i);
        list.insert(i as u32);
        {
            let guard = h.read();
            assert!(collect(&list, &guard).contains(&(i as u32)));
        }
        h.quiescent_state(&mut eng);
        assert!(h.unregister(&mut eng));
    }
    let probe = eng.register(100);
    let guard = probe.read();
    let contents = collect(&list, &guard);
    let expected: Vec<u32> = (0..20).collect();
    assert_eq!(contents, expected);
    drop(guard);
    assert!(probe.unregister(&mut eng));
}

#[test]
fn interleaved_remove_keeps_odds() {
    let mut eng = Qsbr::<Futex>::new();
    let mut list = RcuList::<u32, Futex>::new();
    for i in 0..20u64 {
        let mut h = eng.register(i);
        list.insert(i as u32);
        {
            let guard = h.read();
            assert!(collect(&list, &guard).contains(&(i as u32)));
        }
        if i % 2 == 0 {
            let removed = list.remove(&(i as u32), &mut eng, &mut h);
            assert_eq!(removed, i as u32);
        }
        h.quiescent_state(&mut eng);
        assert!(h.unregister(&mut eng));
    }
    let probe = eng.register(100);
    let guard = probe.read();
    let contents = collect(&list, &guard);
    let expected: Vec<u32> = (0..20).filter(|v| v % 2 == 1).collect();
    assert_eq!(contents, expected);
    drop(guard);
    assert!(probe.unregister(&mut eng));
}

#[test]
fn insert_before_head_updates_order() {
    let mut eng = Qsbr::<Futex>::new();
    let mut list = RcuList::<u32, Futex>::new();
    let h = eng.register(1);
    list.insert(10);
    list.insert(5);
    list.insert(7);
    let guard = h.read();
    assert_eq!(collect(&list, &guard), vec![5, 7, 10]);
    drop(guard);
    assert!(h.unregister(&mut eng));
}

#[test]
fn duplicate_keys_remove_first_match() {
    let mut eng = Qsbr::<Futex>::new();
    let mut list = RcuList::<u32, Futex>::new();
    let mut h = eng.register(1);
    list.insert(5);
    list.insert(5);
    list.insert(3);
    let removed = list.remove(&5, &mut eng, &mut h);
    assert_eq!(removed, 5);
    {
        let guard = h.read();
        assert_eq!(collect(&list, &guard), vec![3, 5]);
    }
    assert!(h.unregister(&mut eng));
}

#[test]
fn reader_completes_across_remove() {
    let mut eng = Qsbr::<Futex>::new();
    let mut list = RcuList::<u32, Futex>::new();
    let h = eng.register(1);
    list.insert(1);
    list.insert(2);
    list.insert(3);
    let guard = h.read();
    let mut it = RcuListIterator::new(&guard, &list);
    assert_eq!(it.next(&list), Some(1));
    // An element the reader has not visited yet is unlinked mid-iteration.
    let node = list.remove_unsynced(&3);
    assert_eq!(node.elem, 3);
    assert_eq!(it.next(&list), Some(2));
    assert_eq!(it.next(&list), None);
    // A fresh traversal no longer finds the unlinked element.
    let mut it2 = RcuListIterator::new(&guard, &list);
    assert_eq!(it2.next(&list), Some(1));
    assert_eq!(it2.next(&list), Some(2));
    assert_eq!(it2.next(&list), None);
    drop(guard);
    assert!(h.unregister(&mut eng));
}

#[test]
fn spin_lock_list_works_too() {
    let mut eng = Qsbr::<SpinLock>::new();
    let mut list = RcuList::<u32, SpinLock>::new();
    let mut h = eng.register(1);
    list.insert(8);
    let removed = list.remove(&8, &mut eng, &mut h);
    assert_eq!(removed, 8);
    assert!(h.unregister(&mut eng));
}

#[test]
fn default_constructions_start_empty() {
    let mut eng = Qsbr::<Futex>::default();
    let mut list = RcuList::<u32, Futex>::default();
    let mut h = eng.register(1);
    list.insert(2);
    assert_eq!(list.remove(&2, &mut eng, &mut h), 2);
    assert!(h.unregister(&mut eng));
}

#[test]
fn find_reports_first_index() {
    let mut list = RcuList::<u32, Futex>::new();
    list.insert(4);
    list.insert(6);
    assert_eq!(list.find(4), Some(0));
    assert_eq!(list.find(6), Some(1));
    assert_eq!(list.find(5), None);
    assert_eq!(list.len(), 2);
    assert_eq!(*list.get(0), 4);
}
