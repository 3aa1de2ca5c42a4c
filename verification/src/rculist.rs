//! A sorted list with the interface of an RCU-protected linked list: keyed
//! insertion, unlink of the first element with a matching key, and a
//! restartable forward iterator whose construction takes a read-side guard.
//! The thread registry instantiates it with `Tentry`; clients typically
//! instantiate it with a plain integer type.
//!
//! Writers serialize on the embedded lock, as writers of a shared list
//! must, even though exclusive access already follows from the `&mut`
//! receivers here.
use crate::qsbr::{Qsbr, QsbrGuard, QsbrThreadHandle};
use crate::utils::Lock;
use vstd::prelude::*;

verus! {

/// An element that can live in an `RcuList`: it is ordered by a `u64` key.
pub trait Keyed: Sized {
    spec fn key(&self) -> u64;

    fn key_of(&self) -> (k: u64)
        ensures
            k == self.key(),
    ;
}

impl Keyed for u32 {
    open spec fn key(&self) -> u64 {
        *self as u64
    }

    fn key_of(&self) -> (k: u64) {
        *self as u64
    }
}

impl Keyed for u64 {
    open spec fn key(&self) -> u64 {
        *self
    }

    fn key_of(&self) -> (k: u64) {
        *self
    }
}

/// Keys never decrease from left to right.
pub open spec fn sorted_by_key<T: Keyed>(s: Seq<T>) -> bool {
    forall|i: int, j: int|
        0 <= i && i < j && j < s.len() ==> #[trigger] s[i].key() <= #[trigger] s[j].key()
}

/// Some element of `s` carries key `k`.
pub open spec fn has_key<T: Keyed>(s: Seq<T>, k: u64) -> bool {
    exists|i: int| 0 <= i < s.len() && #[trigger] s[i].key() == k
}

/// After an element is inserted, a traversal finds its key.
pub proof fn lemma_insert_contains<T: Keyed>(s: Seq<T>, i: int, v: T)
    requires
        0 <= i <= s.len(),
    ensures
        has_key(s.insert(i, v), v.key()),
{
    assert(s.insert(i, v)[i] == v);
}

/// A removed element is no longer reachable from the list: when the element
/// at `i` was the only one with its key, the list that remains after the
/// removal holds that key nowhere.
pub proof fn lemma_removed_not_reachable<T: Keyed>(s: Seq<T>, i: int, k: u64)
    requires
        0 <= i < s.len(),
        s[i].key() == k,
        forall|j: int| 0 <= j < s.len() && j != i ==> (#[trigger] s[j]).key() != k,
    ensures
        !has_key(s.remove(i), k),
{
    let t = s.remove(i);
    assert forall|x: int| 0 <= x < t.len() implies #[trigger] t[x].key() != k by {
        if x < i {
            assert(t[x] == s[x]);
        } else {
            assert(t[x] == s[x + 1]);
        }
    }
}

/// Inserting a key that was absent and then removing it round-trips: the
/// new element is the first (and only) match for its key, taking it back
/// out restores the prior contents, and the key is absent again.
pub proof fn lemma_insert_remove_roundtrip<T: Keyed>(s: Seq<T>, i: int, v: T)
    requires
        0 <= i <= s.len(),
        !has_key(s, v.key()),
    ensures
        ({
            let s2 = s.insert(i, v);
            &&& s2[i] == v
            &&& forall|j: int| 0 <= j < i ==> (#[trigger] s2[j]).key() != v.key()
            &&& s2.remove(i) == s
            &&& !has_key(s2.remove(i), v.key())
        }),
{
    let s2 = s.insert(i, v);
    assert(s2[i] == v);
    assert forall|j: int| 0 <= j < s2.len() && j != i implies (#[trigger] s2[j]).key() != v.key() by {
        if j < i {
            assert(s2[j] == s[j]);
        } else {
            assert(s2[j] == s[j - 1]);
        }
    }
    assert(s2.remove(i) =~= s);
    lemma_removed_not_reachable(s2, i, v.key());
}

/// A list node handed back to the caller of `remove_unsynced`: ownership of
/// the unlinked element.
pub struct RcuListElem<T: Keyed> {
    pub elem: T,
}

/// Sorted list of keyed elements. Writers take the embedded lock; the
/// element sequence never loses its key order.
#[derive(Debug)]
pub struct RcuList<T: Keyed, L: Lock> {
    elems: Vec<T>,
    lock: L,
}

impl<T: Keyed, L: Lock> View for RcuList<T, L> {
    type V = Seq<T>;

    closed spec fn view(&self) -> Seq<T> {
        self.elems@
    }
}

impl<T: Keyed, L: Lock> Default for RcuList<T, L> {
    fn default() -> (r: Self)
        ensures
            r@ == Seq::<T>::empty(),
            r.wf(),
    {
        Self::new()
    }
}

impl<T: Keyed, L: Lock> RcuList<T, L> {
    /// The list invariant: elements are sorted by key.
    pub open spec fn wf(&self) -> bool {
        sorted_by_key(self@)
    }

    pub fn new() -> (r: Self)
        ensures
            r@ == Seq::<T>::empty(),
            r.wf(),
    {
        RcuList { elems: Vec::new(), lock: L::new() }
    }

    /// Writer-side lock.
    fn lock(&self) -> L::Guard {
        self.lock.lock()
    }

    /// Inserts `elem` before the first element with a strictly greater key,
    /// so a new element lands after any elements with an equal key. Returns
    /// the position the element was placed at.
    pub fn insert(&mut self, elem: T) -> (i: usize)
        requires
            old(self).wf(),
        ensures
            final(self).wf(),
            i <= old(self)@.len(),
            final(self)@ == old(self)@.insert(i as int, elem),
            forall|j: int| 0 <= j < i ==> #[trigger] old(self)@[j].key() <= elem.key(),
            forall|j: int| i <= j < old(self)@.len() ==> #[trigger] old(self)@[j].key() > elem.key(),
    {
        let guard = self.lock();
        let k = elem.key_of();
        let mut i: usize = 0;
        while i < self.elems.len() && self.elems[i].key_of() <= k
            invariant
                i <= self.elems.len(),
                forall|j: int| 0 <= j < i ==> #[trigger] self.elems@[j].key() <= k,
            decreases self.elems.len() - i,
        {
            i = i + 1;
        }
        proof {
            assert forall|j: int| i <= j < self@.len() implies #[trigger] self@[j].key() > k by {
                if i < self@.len() {
                    assert(self@[i as int].key() <= self@[j].key());
                }
            }
        }
        self.elems.insert(i, elem);
        proof {
            let s = old(self)@;
            let t = self@;
            assert forall|a: int, b: int| 0 <= a && a < b && b < t.len() implies #[trigger] t[a].key()
                <= #[trigger] t[b].key() by {
                if a < i && b < i {
                    assert(t[a] == s[a] && t[b] == s[b]);
                } else if a < i && b == i {
                    assert(t[a] == s[a] && t[b] == elem);
                } else if a < i && b > i {
                    assert(t[a] == s[a] && t[b] == s[b - 1]);
                } else if a == i {
                    assert(t[a] == elem && t[b] == s[b - 1]);
                } else {
                    assert(t[a] == s[a - 1] && t[b] == s[b - 1]);
                }
            }
        }
        self.lock.unlock(guard);
        i
    }

    /// Index of the first element with key `k`, if any element has it.
    pub fn find(&self, k: u64) -> (r: Option<usize>)
        ensures
            match r {
                Some(i) => i < self@.len() && self@[i as int].key() == k && forall|j: int|
                    0 <= j < i ==> #[trigger] self@[j].key() != k,
                None => forall|j: int| 0 <= j < self@.len() ==> #[trigger] self@[j].key() != k,
            },
    {
        let mut i: usize = 0;
        while i < self.elems.len()
            invariant
                i <= self.elems.len(),
                forall|j: int| 0 <= j < i ==> #[trigger] self.elems@[j].key() != k,
            decreases self.elems.len() - i,
        {
            if self.elems[i].key_of() == k {
                return Some(i);
            }
            i = i + 1;
        }
        None
    }

    pub fn len(&self) -> (n: usize)
        ensures
            n == self@.len(),
    {
        self.elems.len()
    }

    pub fn get(&self, i: usize) -> (r: &T)
        requires
            i < self@.len(),
        ensures
            *r == self@[i as int],
    {
        &self.elems[i]
    }

    /// Replaces the element at `i` with one carrying the same key; the
    /// registry uses this to move a record's state word without disturbing
    /// the order.
    pub fn set_elem(&mut self, i: usize, v: T)
        requires
            old(self).wf(),
            i < old(self)@.len(),
            v.key() == old(self)@[i as int].key(),
        ensures
            final(self).wf(),
            final(self)@ == old(self)@.update(i as int, v),
    {
        let guard = self.lock();
        self.elems[i] = v;
        proof {
            let s = old(self)@;
            let t = self@;
            assert forall|a: int, b: int| 0 <= a && a < b && b < t.len() implies #[trigger] t[a].key()
                <= #[trigger] t[b].key() by {
                assert(t[a].key() == s[a].key() && t[b].key() == s[b].key());
            }
        }
        self.lock.unlock(guard);
    }

    /// Unlinks and returns the first element whose key matches `elem`'s,
    /// without waiting for any grace period. The caller answers for readers
    /// that may still traverse the element. An absent key is a contract
    /// violation, so it is excluded here.
    pub fn remove_unsynced(&mut self, elem: &T) -> (node: RcuListElem<T>)
        requires
            old(self).wf(),
            has_key(old(self)@, elem.key()),
        ensures
            final(self).wf(),
            final(self)@.len() + 1 == old(self)@.len(),
            exists|i: int|
                0 <= i < old(self)@.len() && #[trigger] old(self)@[i].key() == elem.key() && (
                forall|j: int| 0 <= j < i ==> #[trigger] old(self)@[j].key() != elem.key())
                    && node.elem == old(self)@[i] && final(self)@ == old(self)@.remove(i),
    {
        let guard = self.lock();
        let k = elem.key_of();
        let found = self.find(k);
        let i = match found {
            Some(i) => i,
            None => {
                proof {
                    let w = choose|w: int| 0 <= w < self@.len() && #[trigger] self@[w].key() == k;
                    assert(self@[w].key() != k);
                }
                unreached()
            },
        };
        let v = self.elems.remove(i);
        proof {
            let s = old(self)@;
            let t = self@;
            assert forall|a: int, b: int| 0 <= a && a < b && b < t.len() implies #[trigger] t[a].key()
                <= #[trigger] t[b].key() by {
                if a < i && b < i {
                    assert(t[a] == s[a] && t[b] == s[b]);
                } else if a < i {
                    assert(t[a] == s[a] && t[b] == s[b + 1]);
                } else {
                    assert(t[a] == s[a + 1] && t[b] == s[b + 1]);
                }
            }
        }
        self.lock.unlock(guard);
        RcuListElem { elem: v }
    }

    /// Removes the first element whose key matches `elem`'s and waits for a
    /// grace period through `handle.quiescent_sync` before handing the
    /// element's ownership to the caller: no reader that could still observe
    /// the unlinked element remains unaccounted for once the element is
    /// returned.
    pub fn remove(&mut self, elem: &T, eng: &mut Qsbr<L>, handle: &mut QsbrThreadHandle) -> (r: T)
        requires
            old(self).wf(),
            has_key(old(self)@, elem.key()),
            old(eng).wf(),
            crate::qsbr::has_id(old(eng).registry(), old(handle).tid()),
        ensures
            final(self).wf(),
            final(self)@.len() + 1 == old(self)@.len(),
            exists|i: int|
                0 <= i < old(self)@.len() && #[trigger] old(self)@[i].key() == elem.key() && (
                forall|j: int| 0 <= j < i ==> #[trigger] old(self)@[j].key() != elem.key()) && r
                    == old(self)@[i] && final(self)@ == old(self)@.remove(i),
            final(eng).wf(),
            *final(handle) == *old(handle),
            ({
                let s = old(eng).registry();
                let j = crate::qsbr::index_of_id(s, old(handle).tid());
                final(eng).registry() == crate::qsbr::with_qstate(
                    s,
                    j,
                    crate::qsbr::next_qstate(s[j].qstate),
                )
            }),
    {
        let node = self.remove_unsynced(elem);
        let _synced = handle.quiescent_sync(eng);
        node.elem
    }
}

/// Forward traversal of an `RcuList`, tied to a read-side critical section:
/// constructing it takes a read guard, as the concurrent traversals it
/// models must. Restartable by constructing a fresh one.
pub struct RcuListIterator {
    idx: usize,
}

impl RcuListIterator {
    /// How many elements have been yielded so far.
    pub closed spec fn pos(&self) -> int {
        self.idx as int
    }

    pub fn new<T: Keyed, L: Lock>(_guard: &QsbrGuard<'_>, _list: &RcuList<T, L>) -> (it: Self)
        ensures
            it.pos() == 0,
    {
        RcuListIterator { idx: 0 }
    }

    /// Yields the next element of `list`, front to back.
    pub fn next<T: Keyed + Copy, L: Lock>(&mut self, list: &RcuList<T, L>) -> (r: Option<T>)
        ensures
            old(self).pos() < list@.len() ==> r == Some(list@[old(self).pos()]) && final(self).pos()
                == old(self).pos() + 1,
            old(self).pos() >= list@.len() ==> r is None && final(self).pos() == old(self).pos(),
    {
        if self.idx < list.len() {
            let v = *list.get(self.idx);
            self.idx = self.idx + 1;
            Some(v)
        } else {
            None
        }
    }
}

} // verus!
