use rcu::qsbr::Qsbr;
use rcu::rcuelem::RcuElem;
use rcu::utils::Futex;

fn worker(id: u64, rcu_handle: &mut Qsbr<Futex>) {
    let mut t_handle = rcu_handle.register(id);

    t_handle.quiescent_state(rcu_handle);
    assert!(t_handle.unregister(rcu_handle));
}

#[test]
fn store_things() {
    let mut my_rcu = Qsbr::<Futex>::new();
    worker(0, &mut my_rcu);
}

#[test]
fn elem_get_returns_stored() {
    let mut eng = Qsbr::<Futex>::new();
    let h = eng.register(1);
    let elem = RcuElem::new(7u32);
    {
        let guard = h.read();
        assert_eq!(*elem.get(&guard), 7);
    }
    assert!(h.unregister(&mut eng));
}

#[test]
fn elem_swap_returns_old_value() {
    let mut elem = RcuElem::new(7u32);
    let mut w = elem.write();
    assert_eq!(w.swap(&mut elem, 9), Some(7));
    w.finish(&elem);
    let mut eng = Qsbr::<Futex>::new();
    let h = eng.register(1);
    let guard = h.read();
    assert_eq!(*elem.get(&guard), 9);
    drop(guard);
    assert!(h.unregister(&mut eng));
}

#[test]
fn elem_compare_exchange_by_expectation() {
    let mut elem = RcuElem::new(7u32);
    let mut w = elem.write();
    // The cell still holds what the writer expects: the exchange succeeds
    // and hands the old value back.
    assert_eq!(w.compare_exchange(&mut elem, &7, 11), Ok(Some(7)));
    // The expectation is now stale: the new value comes back unchanged.
    assert_eq!(w.compare_exchange(&mut elem, &7, 13), Err(13));
    w.finish(&elem);
    let mut eng = Qsbr::<Futex>::new();
    let h = eng.register(1);
    let guard = h.read();
    assert_eq!(*elem.get(&guard), 11);
    drop(guard);
    assert!(h.unregister(&mut eng));
}
