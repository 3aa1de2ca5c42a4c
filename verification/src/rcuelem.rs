//! A single-value cell with read-side access gated by a QSBR read guard and
//! writer-side mutual exclusion: readers borrow the stored value for the
//! lifetime of their guard, while a writer takes the cell's lock and may
//! exchange the value outright or conditionally on what it expects to find.
//! A conditional exchange compares the stored value's key with the writer's
//! expectation.
use crate::qsbr::QsbrGuard;
use crate::rculist::Keyed;
use crate::utils::{Futex, Lock};
use vstd::prelude::*;

verus! {

/// The cell: one stored value and the writers' lock.
pub struct RcuElem<T: Keyed> {
    lock: Futex,
    value: T,
}

impl<T: Keyed> RcuElem<T> {
    /// The value the cell currently stores.
    pub closed spec fn stored(&self) -> T {
        self.value
    }

    pub fn new(v: T) -> (r: Self)
        ensures
            r.stored() == v,
    {
        RcuElem { lock: Futex::new(), value: v }
    }

    /// Read-side access: the reference lives as long as the read guard that
    /// gates it, which is what keeps the value from being reclaimed under
    /// the reader.
    pub fn get<'a>(&'a self, _guard: &QsbrGuard<'_>) -> (r: &'a T)
        ensures
            *r == self.stored(),
    {
        &self.value
    }

    /// Starts a write: takes the cell's lock and returns the token that the
    /// exchange operations and `finish` consume.
    pub fn write(&self) -> WriteGuard {
        WriteGuard { token: self.lock.lock() }
    }
}

/// Writer-side token for one `RcuElem`: holds the cell's lock from `write`
/// until `finish`.
pub struct WriteGuard {
    token: <Futex as Lock>::Guard,
}

impl WriteGuard {
    /// Replaces the stored value with `new` only if the cell still holds
    /// what the writer expects: on success the old value comes back in
    /// `Ok`, otherwise `new` is handed back unchanged in `Err`.
    pub fn compare_exchange<T: Keyed>(
        &mut self,
        elem: &mut RcuElem<T>,
        expected: &T,
        new: T,
    ) -> (r: Result<Option<T>, T>)
        ensures
            old(elem).stored().key() == expected.key() ==> final(elem).stored() == new && r
                == Ok::<Option<T>, T>(Some(old(elem).stored())),
            old(elem).stored().key() != expected.key() ==> *final(elem) == *old(elem) && r
                == Err::<Option<T>, T>(new),
    {
        if elem.value.key_of() == expected.key_of() {
            let mut prev = new;
            core::mem::swap(&mut elem.value, &mut prev);
            Ok(Some(prev))
        } else {
            Err(new)
        }
    }

    /// Replaces the stored value unconditionally and returns the old one.
    pub fn swap<T: Keyed>(&mut self, elem: &mut RcuElem<T>, new: T) -> (r: Option<T>)
        ensures
            final(elem).stored() == new,
            r == Some(old(elem).stored()),
    {
        let mut prev = new;
        core::mem::swap(&mut elem.value, &mut prev);
        Some(prev)
    }

    /// Ends the write and releases the cell's lock.
    pub fn finish<T: Keyed>(self, elem: &RcuElem<T>) {
        let WriteGuard { token } = self;
        elem.lock.unlock(token);
    }
}

} // verus!
