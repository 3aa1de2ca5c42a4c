//! The quiescent-state-based reclamation engine: a registry of per-thread
//! state records ordered by thread id, thread handles that own one record
//! each, and the grace-period decision logic behind `sync` and handle
//! teardown.
//!
//! Every mutation of the registry happens through `&mut` access to the
//! engine, so the registry invariant — ids strictly ascending, every resident
//! record holding an epoch counter — holds at every point where the engine
//! can be observed. The reserved codes below `COUNTER_BASE` appear in
//! snapshots taken while a sync or a teardown is in flight, and the decision
//! functions are verified for every snapshot value.
use crate::is_counter;
use crate::rculist::{has_key, sorted_by_key, Keyed, RcuList, RcuListElem, RcuListIterator};
use crate::utils::Lock;
use crate::COUNTER_BASE;
use vstd::prelude::*;

verus! {

/// Reserved code: the record is permanently quiescent and being torn down.
pub const QSTATE_RETIRED: u32 = 0;

/// Reserved code: the thread is executing a sync; quiescent for other
/// syncers, but its record must not be torn down.
pub const QSTATE_SYNCING: u32 = 1;

/// Reserved code: the thread is tearing its handle down; a long quiescent
/// state that other teardowns may sleep on.
pub const QSTATE_TEARDOWN: u32 = 2;

/// Per-thread state record: the registry's element. `qstate` starts at
/// `COUNTER_BASE` and stays a counter while the record is resident in the
/// registry.
#[derive(Debug, Clone, Copy)]
pub struct Tentry {
    /// Epoch counter or reserved code; see the state codes above.
    pub qstate: u32,
    /// Caller-supplied id, unique per live record; the registry order key.
    pub id: u64,
}

impl Keyed for Tentry {
    open spec fn key(&self) -> u64 {
        self.id
    }

    fn key_of(&self) -> (k: u64) {
        self.id
    }
}

impl Tentry {
    pub fn new(id: u64) -> (t: Self)
        ensures
            t.id == id,
            t.qstate == COUNTER_BASE,
    {
        Tentry { qstate: COUNTER_BASE, id }
    }
}

/// Ids strictly increase from left to right: each id occurs at most once.
pub open spec fn ids_strictly_ascending(s: Seq<Tentry>) -> bool {
    forall|i: int, j: int| 0 <= i && i < j && j < s.len() ==> #[trigger] s[i].id < #[trigger] s[j].id
}

/// Every resident record holds an epoch counter.
pub open spec fn all_counters(s: Seq<Tentry>) -> bool {
    forall|i: int| 0 <= i < s.len() ==> is_counter(#[trigger] s[i].qstate)
}

/// Some record carries `id`.
pub open spec fn has_id(s: Seq<Tentry>, id: u64) -> bool {
    exists|i: int| 0 <= i < s.len() && #[trigger] s[i].id == id
}

/// The index of the record with `id`; meaningful when `has_id` holds and the
/// ids are unique.
pub open spec fn index_of_id(s: Seq<Tentry>, id: u64) -> int {
    choose|i: int| 0 <= i < s.len() && #[trigger] s[i].id == id
}

/// `s` with the record at `j` holding `q` instead of its old counter.
pub open spec fn with_qstate(s: Seq<Tentry>, j: int, q: u32) -> Seq<Tentry> {
    s.update(j, Tentry { qstate: q, id: s[j].id })
}

pub proof fn lemma_ascending_ids_sorted(s: Seq<Tentry>)
    requires
        ids_strictly_ascending(s),
    ensures
        sorted_by_key(s),
{
}

/// With unique ids, any record that carries `id` sits at `index_of_id`.
pub proof fn lemma_index_of_id_unique(s: Seq<Tentry>, id: u64, i: int)
    requires
        ids_strictly_ascending(s),
        0 <= i < s.len(),
        s[i].id == id,
    ensures
        index_of_id(s, id) == i,
        has_id(s, id),
{
    assert(has_id(s, id));
    let w = index_of_id(s, id);
    assert(0 <= w < s.len() && s[w].id == id);
    if w < i {
        assert(s[w].id < s[i].id);
    } else if i < w {
        assert(s[i].id < s[w].id);
    }
}

/// The successor of a `qstate` counter: one more, or back to `COUNTER_BASE`
/// once the wrap threshold `u32::MAX / 2` is passed. Always a counter, and
/// always different from its argument when the argument is a counter — which
/// is all the grace-period wait needs of it.
pub open spec fn next_qstate(q: u32) -> u32 {
    if q > u32::MAX / 2 {
        COUNTER_BASE
    } else {
        (q + 1) as u32
    }
}

pub fn advance_qstate(q: u32) -> (r: u32)
    ensures
        r == next_qstate(q),
{
    if q > u32::MAX / 2 {
        COUNTER_BASE
    } else {
        q + 1
    }
}

/// An announced quiescent state always moves a counter to a different
/// counter, so every snapshot taken before the announcement observes the
/// change — wrapping included.
pub proof fn lemma_advance_makes_progress(q: u32)
    requires
        is_counter(q),
    ensures
        is_counter(next_qstate(q)),
        next_qstate(q) != q,
{
}

/// The `(id, qstate)` pairs a sync call collects from the registry.
pub open spec fn snapshot_of(s: Seq<Tentry>) -> Seq<(u64, u32)> {
    Seq::new(s.len(), |i: int| (s[i].id, s[i].qstate))
}

/// A snapshot pair still blocks an ordinary sync on the live record `t`:
/// the pair named `t`'s id, was a counter when snapshotted, and the counter
/// has not moved since.
pub open spec fn snap_blocks(before: Seq<(u64, u32)>, t: Tentry) -> bool {
    exists|i: int|
        0 <= i < before.len() && (#[trigger] before[i]).0 == t.id && is_counter(before[i].1)
            && t.qstate == before[i].1
}

/// A grace period has passed for the snapshot `before`: every record that
/// was present with a counter has either left the registry or moved its
/// counter at least once.
pub open spec fn grace_passed(before: Seq<(u64, u32)>, after: Seq<Tentry>) -> bool {
    forall|j: int| 0 <= j < after.len() ==> !snap_blocks(before, #[trigger] after[j])
}

/// A snapshot pair still blocks a handle teardown on the live record `t`.
/// Teardown also waits out peers it snapshotted inside an ordinary sync
/// (code `QSTATE_SYNCING`), but never its own record.
pub open spec fn snap_blocks_teardown(before: Seq<(u64, u32)>, t: Tentry, self_id: u64) -> bool {
    exists|i: int|
        0 <= i < before.len() && (#[trigger] before[i]).0 == t.id && before[i].0 != self_id && (
        is_counter(before[i].1) || before[i].1 == QSTATE_SYNCING) && t.qstate == before[i].1
}

/// A snapshot pair blocks a teardown specifically because the peer was in an
/// ordinary sync: the waiter must spin, since that peer's wake pattern is
/// not the usual one.
pub open spec fn snap_spin_blocks(before: Seq<(u64, u32)>, t: Tentry, self_id: u64) -> bool {
    exists|i: int|
        0 <= i < before.len() && (#[trigger] before[i]).0 == t.id && before[i].0 != self_id
            && before[i].1 == QSTATE_SYNCING && t.qstate == before[i].1
}

/// The teardown grace period: every snapshotted record other than the
/// leaving thread's own that was a counter or syncing has left or moved.
pub open spec fn drop_grace_passed(before: Seq<(u64, u32)>, after: Seq<Tentry>, self_id: u64) -> bool {
    forall|j: int| 0 <= j < after.len() ==> !snap_blocks_teardown(before, #[trigger] after[j], self_id)
}

/// The registry is strictly ascending by id whenever the engine invariant
/// holds — that is, at every point where the engine can be observed.
pub proof fn lemma_registry_strictly_ascending<L: Lock>(eng: &Qsbr<L>)
    requires
        eng.wf(),
    ensures
        ids_strictly_ascending(eng.registry()),
{
}

/// A thread inside a read section finds its own record holding an epoch
/// counter: the record of the handle a live guard borrows is resident, and
/// every resident record's `qstate` is at least `COUNTER_BASE`. The guard's
/// borrow is what keeps the counter there for the whole section — no
/// announcement can run on the handle while the guard lives.
pub proof fn lemma_read_section_counter<L: Lock>(eng: &Qsbr<L>, g: &QsbrGuard<'_>, i: int)
    requires
        eng.wf(),
        0 <= i < eng.registry().len(),
        eng.registry()[i].id == g.tid(),
    ensures
        is_counter(eng.registry()[i].qstate),
{
}

/// What a completed sync means: every record that was present at the
/// snapshot with a counter `qstate` has, by the time the grace period is
/// reported passed, either left the registry (no `j` matches it) or moved
/// its counter at least once.
pub proof fn lemma_sync_progress(before: Seq<(u64, u32)>, after: Seq<Tentry>, i: int, j: int)
    requires
        grace_passed(before, after),
        0 <= i < before.len(),
        0 <= j < after.len(),
        before[i].0 == after[j].id,
        is_counter(before[i].1),
    ensures
        after[j].qstate != before[i].1,
{
    assert(!snap_blocks(before, after[j]));
    if after[j].qstate == before[i].1 {
        assert(snap_blocks(before, after[j]));
    }
}

/// Wrap safety: once a record has announced a quiescent state, a snapshot
/// pair taken before the announcement no longer blocks on it — also across
/// the wrap back to `COUNTER_BASE`, since the snapshotted value is compared
/// only with the current one.
pub proof fn lemma_progress_unblocks(before: Seq<(u64, u32)>, t: Tentry, i: int)
    requires
        0 <= i < before.len(),
        before[i].0 == t.id,
        is_counter(before[i].1),
        t.qstate == next_qstate(before[i].1),
        forall|j: int| 0 <= j < before.len() && j != i ==> (#[trigger] before[j]).0 != t.id,
    ensures
        !snap_blocks(before, t),
{
    lemma_advance_makes_progress(before[i].1);
    if snap_blocks(before, t) {
        let w = choose|w: int|
            0 <= w < before.len() && (#[trigger] before[w]).0 == t.id && is_counter(before[w].1)
                && t.qstate == before[w].1;
        assert(w == i);
    }
}

/// What a completed teardown wait means: a peer that the teardown snapshot
/// caught inside an ordinary sync (`QSTATE_SYNCING`) has, by the time the
/// teardown grace period is reported passed, either left the registry or
/// moved on from that sync — so no sync that was in flight when the record
/// was unlinked can still be traversing it.
pub proof fn lemma_teardown_outwaits_syncers(
    before: Seq<(u64, u32)>,
    after: Seq<Tentry>,
    self_id: u64,
    i: int,
    j: int,
)
    requires
        drop_grace_passed(before, after, self_id),
        0 <= i < before.len(),
        0 <= j < after.len(),
        before[i].0 == after[j].id,
        before[i].0 != self_id,
        before[i].1 == QSTATE_SYNCING,
    ensures
        after[j].qstate != QSTATE_SYNCING,
{
    assert(!snap_blocks_teardown(before, after[j], self_id));
    if after[j].qstate == QSTATE_SYNCING {
        assert(snap_blocks_teardown(before, after[j], self_id));
    }
}

/// Registering an id that was absent and then unregistering it leaves the
/// registry exactly as it was: the fresh record goes in at one position, is
/// the only record with its id, and comes back out from that position.
pub proof fn lemma_register_unregister_roundtrip(s: Seq<Tentry>, r1: Seq<Tentry>, id: u64, i: int)
    requires
        !has_id(s, id),
        0 <= i <= s.len(),
        r1 == s.insert(i, Tentry { qstate: COUNTER_BASE, id }),
        ids_strictly_ascending(r1),
    ensures
        index_of_id(r1, id) == i,
        r1.remove(index_of_id(r1, id)) == s,
{
    assert(r1[i] == (Tentry { qstate: COUNTER_BASE, id }));
    lemma_index_of_id_unique(r1, id, i);
    assert(r1.remove(i) =~= s);
}

/// The engine. It owns the registry; handles refer to their record by id.
#[derive(Debug)]
pub struct Qsbr<L: Lock> {
    threads: RcuList<Tentry, L>,
    lock: L,
}

impl<L: Lock> Default for Qsbr<L> {
    fn default() -> (r: Self)
        ensures
            r.wf(),
            r.registry() == Seq::<Tentry>::empty(),
    {
        Self::new()
    }
}

/// Created by `Qsbr::register`: the exclusive right to mutate one registry
/// record's `qstate` and to run reclamation waits. Single-owner; taking a
/// read guard borrows the handle, so no quiescent state can be announced
/// while a guard lives.
pub struct QsbrThreadHandle {
    id: u64,
}

impl QsbrThreadHandle {
    /// The id of the registry record this handle owns.
    pub closed spec fn tid(&self) -> u64 {
        self.id
    }

    pub fn thread_id(&self) -> (r: u64)
        ensures
            r == self.tid(),
    {
        self.id
    }

    /// Starts a read-side critical section. The guard borrows the handle, so
    /// `quiescent_state` and the other `&mut self` operations cannot run
    /// until the guard is dropped: the record's counter cannot move while
    /// the section is open.
    pub fn read(&self) -> (g: QsbrGuard<'_>)
        ensures
            g.tid() == self.tid(),
    {
        QsbrGuard { handle: self }
    }

    /// Announces that this thread has passed through a quiescent state: its
    /// record's counter moves to the next epoch, wrapping back to
    /// `COUNTER_BASE` past the threshold, so every snapshot taken before the
    /// announcement sees the change. Taking `&mut self` keeps it from being
    /// called while any read guard of this handle lives.
    pub fn quiescent_state<L: Lock>(&mut self, eng: &mut Qsbr<L>)
        requires
            old(eng).wf(),
            has_id(old(eng).registry(), old(self).tid()),
        ensures
            final(eng).wf(),
            *final(self) == *old(self),
            ({
                let s = old(eng).registry();
                let j = index_of_id(s, old(self).tid());
                final(eng).registry() == with_qstate(s, j, next_qstate(s[j].qstate))
            }),
    {
        let i = eng.index_of(self.id);
        let t = *eng.threads.get(i);
        let q2 = advance_qstate(t.qstate);
        proof {
            lemma_ascending_ids_sorted(eng.registry());
        }
        eng.threads.set_elem(i, Tentry { qstate: q2, id: self.id });
        proof {
            let s = old(eng).registry();
            let n = eng.registry();
            assert(n =~= with_qstate(s, i as int, q2));
            assert forall|a: int, b: int| 0 <= a && a < b && b < n.len() implies #[trigger] n[a].id
                < #[trigger] n[b].id by {
                assert(n[a].id == s[a].id && n[b].id == s[b].id);
            }
            assert forall|x: int| 0 <= x < n.len() implies is_counter(#[trigger] n[x].qstate) by {
                if x != i {
                    assert(n[x] == s[x]);
                }
            }
        }
    }

    /// Snapshots the registry under a fresh read guard: the `(id, qstate)`
    /// pair of every record, in registry order.
    pub fn get_state<L: Lock>(&self, eng: &Qsbr<L>) -> (v: Vec<(u64, u32)>)
        ensures
            v@ == snapshot_of(eng.registry()),
    {
        let guard = self.read();
        let mut it = RcuListIterator::new(&guard, &eng.threads);
        let mut v: Vec<(u64, u32)> = Vec::new();
        loop
            invariant
                0 <= it.pos() <= eng.registry().len(),
                v@.len() == it.pos(),
                forall|x: int|
                    0 <= x < it.pos() ==> v@[x] == (eng.registry()[x].id, eng.registry()[x].qstate),
            ensures
                v@.len() == eng.registry().len(),
                forall|x: int|
                    0 <= x < v@.len() ==> v@[x] == (eng.registry()[x].id, eng.registry()[x].qstate),
            decreases eng.registry().len() - it.pos(),
        {
            let nxt = it.next(&eng.threads);
            match nxt {
                Some(t) => { v.push((t.id, t.qstate)) },
                None => { break },
            }
        }
        proof {
            assert(v@ =~= snapshot_of(eng.registry()));
        }
        v
    }

    /// One observation of the grace-period condition: snapshots the registry
    /// and reports whether every thread registered at the snapshot has
    /// passed through a quiescent state relative to it — that is, whether a
    /// caller blocking for a grace period could stop waiting now. A thread
    /// whose snapshotted `qstate` was a reserved code counts as quiescent;
    /// the calling thread's own counter counts like any other, so a plain
    /// `sync` is not itself a quiescent state (`quiescent_sync` is).
    pub fn sync<L: Lock>(&self, eng: &Qsbr<L>) -> (done: bool)
        ensures
            done == grace_passed(snapshot_of(eng.registry()), eng.registry()),
    {
        let snap = self.get_state(eng);
        let r = eng.try_sync(&snap);
        r.is_none()
    }

    /// `sync`, bracketed by this thread's own announcement: the record dips
    /// to `QSTATE_SYNCING` for the observation — so it counts as quiescent
    /// for peers and never blocks itself — and is restored to the next
    /// epoch counter afterwards. Reports the grace-period condition for the
    /// snapshot taken while the record was syncing.
    pub fn quiescent_sync<L: Lock>(&mut self, eng: &mut Qsbr<L>) -> (done: bool)
        requires
            old(eng).wf(),
            has_id(old(eng).registry(), old(self).tid()),
        ensures
            final(eng).wf(),
            *final(self) == *old(self),
            ({
                let s = old(eng).registry();
                let j = index_of_id(s, old(self).tid());
                let mid = with_qstate(s, j, QSTATE_SYNCING);
                &&& final(eng).registry() == with_qstate(s, j, next_qstate(s[j].qstate))
                &&& done == grace_passed(snapshot_of(mid), mid)
            }),
    {
        let i = eng.index_of(self.id);
        let t = *eng.threads.get(i);
        let old_q = t.qstate;
        proof {
            lemma_ascending_ids_sorted(eng.registry());
        }
        eng.threads.set_elem(i, Tentry { qstate: QSTATE_SYNCING, id: self.id });
        proof {
            assert(eng.registry() =~= with_qstate(old(eng).registry(), i as int, QSTATE_SYNCING));
        }
        let snap = self.get_state(eng);
        let r = eng.try_sync(&snap);
        let done = r.is_none();
        let q2 = advance_qstate(old_q);
        proof {
            let s = old(eng).registry();
            let mid = eng.registry();
            assert forall|a: int, b: int| 0 <= a && a < b && b < mid.len() implies #[trigger] mid[a].key()
                <= #[trigger] mid[b].key() by {
                assert(mid[a].id == s[a].id && mid[b].id == s[b].id);
            }
        }
        eng.threads.set_elem(i, Tentry { qstate: q2, id: self.id });
        proof {
            let s = old(eng).registry();
            let n = eng.registry();
            assert(n =~= with_qstate(s, i as int, q2));
            assert forall|a: int, b: int| 0 <= a && a < b && b < n.len() implies #[trigger] n[a].id
                < #[trigger] n[b].id by {
                assert(n[a].id == s[a].id && n[b].id == s[b].id);
            }
            assert forall|x: int| 0 <= x < n.len() implies is_counter(#[trigger] n[x].qstate) by {
                if x != i {
                    assert(n[x] == s[x]);
                }
            }
        }
        done
    }

    /// The teardown wait, run on this handle's already unlinked record
    /// `node`: the record dips through `QSTATE_TEARDOWN` (a long quiescent
    /// state other teardowns may sleep on), the engine-wide lock serializes
    /// teardowns so two of them cannot wait on each other, the grace
    /// condition is observed with the record at `QSTATE_SYNCING`, and the
    /// record ends permanently quiescent at `QSTATE_RETIRED`. Reports the
    /// teardown grace condition for the snapshot.
    fn drop_sync<L: Lock>(&self, eng: &Qsbr<L>, node: &mut RcuListElem<Tentry>) -> (done: bool)
        requires
            old(node).elem.id == self.tid(),
        ensures
            final(node).elem.id == self.tid(),
            final(node).elem.qstate == QSTATE_RETIRED,
            done == drop_grace_passed(snapshot_of(eng.registry()), eng.registry(), self.tid()),
    {
        node.elem.qstate = QSTATE_TEARDOWN;
        let guard = eng.lock();
        node.elem.qstate = QSTATE_SYNCING;
        let snap = self.get_state(eng);
        let r = eng.try_drop_sync(&snap, self.id);
        let done = r.is_none();
        node.elem.qstate = QSTATE_RETIRED;
        eng.unlock(guard);
        done
    }

    /// Unregisters the thread: unlinks its record from the registry, then
    /// runs the teardown wait on the unlinked record before the record is
    /// freed. After the call the id is absent from the registry; the report
    /// says whether every sync in flight at the snapshot had completed or
    /// moved past this record.
    pub fn unregister<L: Lock>(self, eng: &mut Qsbr<L>) -> (done: bool)
        requires
            old(eng).wf(),
            has_id(old(eng).registry(), self.tid()),
        ensures
            final(eng).wf(),
            !has_id(final(eng).registry(), self.tid()),
            final(eng).registry() == old(eng).registry().remove(
                index_of_id(old(eng).registry(), self.tid()),
            ),
            done == drop_grace_passed(
                snapshot_of(final(eng).registry()),
                final(eng).registry(),
                self.tid(),
            ),
    {
        let probe = Tentry::new(self.id);
        proof {
            lemma_ascending_ids_sorted(eng.registry());
            let w = choose|w: int|
                0 <= w < eng.registry().len() && #[trigger] eng.registry()[w].id == self.tid();
            assert(eng.registry()[w].key() == probe.key());
            assert(has_key(eng.registry(), probe.key()));
        }
        let mut node = eng.threads.remove_unsynced(&probe);
        proof {
            let s = old(eng).registry();
            let t = eng.registry();
            let i = choose|i: int|
                0 <= i < s.len() && #[trigger] s[i].key() == probe.key() && (forall|j: int|
                    0 <= j < i ==> #[trigger] s[j].key() != probe.key()) && node.elem == s[i] && t
                    == s.remove(i);
            lemma_index_of_id_unique(s, self.tid(), i);
            assert forall|a: int, b: int| 0 <= a && a < b && b < t.len() implies #[trigger] t[a].id
                < #[trigger] t[b].id by {
                if b < i {
                    assert(t[a] == s[a] && t[b] == s[b]);
                } else if a < i {
                    assert(t[a] == s[a] && t[b] == s[b + 1]);
                } else {
                    assert(t[a] == s[a + 1] && t[b] == s[b + 1]);
                }
            }
            assert forall|x: int| 0 <= x < t.len() implies is_counter(#[trigger] t[x].qstate) by {
                if x < i {
                    assert(t[x] == s[x]);
                } else {
                    assert(t[x] == s[x + 1]);
                }
            }
            assert forall|k: int| 0 <= k < t.len() implies t[k].id != self.tid() by {
                if k < i {
                    assert(t[k] == s[k]);
                    if s[k].id == self.tid() {
                        lemma_index_of_id_unique(s, self.tid(), k);
                    }
                } else {
                    assert(t[k] == s[k + 1]);
                    if s[k + 1].id == self.tid() {
                        lemma_index_of_id_unique(s, self.tid(), k + 1);
                    }
                }
            }
        }
        let done = self.drop_sync(eng, &mut node);
        done
    }
}

/// Whether some pair of `before` still blocks an ordinary sync on `t`.
fn entry_blocked(before: &Vec<(u64, u32)>, t: &Tentry) -> (r: bool)
    ensures
        r == snap_blocks(before@, *t),
{
    let mut i: usize = 0;
    while i < before.len()
        invariant
            i <= before@.len(),
            forall|x: int|
                0 <= x < i ==> !((#[trigger] before@[x]).0 == t.id && is_counter(before@[x].1)
                    && t.qstate == before@[x].1),
        decreases before@.len() - i,
    {
        let p = before[i];
        if p.0 == t.id && p.1 >= COUNTER_BASE && t.qstate == p.1 {
            proof {
                assert(snap_blocks(before@, *t));
            }
            return true;
        }
        i = i + 1;
    }
    false
}

/// Whether some pair of `before` still blocks a teardown by `self_id` on `t`.
fn entry_blocked_teardown(before: &Vec<(u64, u32)>, t: &Tentry, self_id: u64) -> (r: bool)
    ensures
        r == snap_blocks_teardown(before@, *t, self_id),
{
    let mut i: usize = 0;
    while i < before.len()
        invariant
            i <= before@.len(),
            forall|x: int|
                0 <= x < i ==> !((#[trigger] before@[x]).0 == t.id && before@[x].0 != self_id && (
                is_counter(before@[x].1) || before@[x].1 == QSTATE_SYNCING) && t.qstate
                    == before@[x].1),
        decreases before@.len() - i,
    {
        let p = before[i];
        if p.0 == t.id && p.0 != self_id && (p.1 >= COUNTER_BASE || p.1 == QSTATE_SYNCING)
            && t.qstate == p.1 {
            proof {
                assert(snap_blocks_teardown(before@, *t, self_id));
            }
            return true;
        }
        i = i + 1;
    }
    false
}

/// Whether some pair of `before` blocks a teardown on `t` because the peer
/// was snapshotted inside an ordinary sync.
fn entry_spin_blocked(before: &Vec<(u64, u32)>, t: &Tentry, self_id: u64) -> (r: bool)
    ensures
        r == snap_spin_blocks(before@, *t, self_id),
{
    let mut i: usize = 0;
    while i < before.len()
        invariant
            i <= before@.len(),
            forall|x: int|
                0 <= x < i ==> !((#[trigger] before@[x]).0 == t.id && before@[x].0 != self_id
                    && before@[x].1 == QSTATE_SYNCING && t.qstate == before@[x].1),
        decreases before@.len() - i,
    {
        let p = before[i];
        if p.0 == t.id && p.0 != self_id && p.1 == QSTATE_SYNCING && t.qstate == p.1 {
            proof {
                assert(snap_spin_blocks(before@, *t, self_id));
            }
            return true;
        }
        i = i + 1;
    }
    false
}

/// Read-side critical-section token. It performs no work; its borrow of the
/// handle is what keeps the owning thread's counter still.
pub struct QsbrGuard<'a> {
    handle: &'a QsbrThreadHandle,
}

impl<'a> QsbrGuard<'a> {
    /// The id of the handle this guard pins.
    pub closed spec fn tid(&self) -> u64 {
        self.handle.tid()
    }
}

impl<L: Lock> Qsbr<L> {
    /// The registry contents, oldest id first.
    pub closed spec fn registry(&self) -> Seq<Tentry> {
        self.threads@
    }

    /// Engine invariant: ids strictly ascending (so unique), every resident
    /// record a counter.
    pub open spec fn wf(&self) -> bool {
        ids_strictly_ascending(self.registry()) && all_counters(self.registry())
    }

    pub fn new() -> (r: Self)
        ensures
            r.wf(),
            r.registry() == Seq::<Tentry>::empty(),
    {
        let threads: RcuList<Tentry, L> = RcuList::new();
        proof {
            assert(threads@.len() == 0);
        }
        Qsbr { threads, lock: L::new() }
    }

    /// Engine-wide lock; serializes handle teardown.
    fn lock(&self) -> L::Guard {
        self.lock.lock()
    }

    fn unlock(&self, guard: L::Guard) {
        self.lock.unlock(guard);
    }

    /// Position of the record with `id` in the registry.
    fn index_of(&self, id: u64) -> (i: usize)
        requires
            self.wf(),
            has_id(self.registry(), id),
        ensures
            i < self.registry().len(),
            self.registry()[i as int].id == id,
            i as int == index_of_id(self.registry(), id),
    {
        let found = self.threads.find(id);
        match found {
            Some(i) => {
                proof {
                    lemma_index_of_id_unique(self.registry(), id, i as int);
                }
                i
            },
            None => {
                proof {
                    let w = choose|w: int|
                        0 <= w < self.registry().len() && #[trigger] self.registry()[w].id == id;
                    assert(self.registry()[w].key() == id);
                    assert(self.registry()[w].key() != id);
                }
                unreached()
            },
        }
    }

    /// One pass of the grace-period wait of `sync`: reports the first
    /// registry record the snapshot `before` still blocks on, or that the
    /// grace period has passed. The blocking caller re-runs this after every
    /// wake; a record is skipped when the snapshot did not know its id, when
    /// the snapshotted value was a reserved code below `COUNTER_BASE`, or
    /// when its counter has moved since the snapshot.
    pub fn try_sync(&self, before: &Vec<(u64, u32)>) -> (r: Option<usize>)
        ensures
            (r is None) == grace_passed(before@, self.registry()),
            match r {
                None => grace_passed(before@, self.registry()),
                Some(j) => j < self.registry().len() && snap_blocks(
                    before@,
                    self.registry()[j as int],
                ) && forall|x: int|
                    0 <= x < j ==> !snap_blocks(before@, #[trigger] self.registry()[x]),
            },
    {
        let n = self.threads.len();
        let mut j: usize = 0;
        while j < n
            invariant
                n == self.registry().len(),
                j <= n,
                forall|x: int| 0 <= x < j ==> !snap_blocks(before@, #[trigger] self.registry()[x]),
            decreases n - j,
        {
            let t = *self.threads.get(j);
            if entry_blocked(before, &t) {
                return Some(j);
            }
            j = j + 1;
        }
        None
    }

    /// One pass of the teardown wait of `drop_sync`: as `try_sync`, but the
    /// leaving thread's own record never blocks it, snapshotted peers inside
    /// an ordinary sync (`QSTATE_SYNCING`) do, and the report says whether
    /// the wait must spin (`true` exactly when such a syncing peer blocks,
    /// since that peer's counter moves without the usual wake).
    pub fn try_drop_sync(&self, before: &Vec<(u64, u32)>, self_id: u64) -> (r: Option<(usize, bool)>)
        ensures
            (r is None) == drop_grace_passed(before@, self.registry(), self_id),
            match r {
                None => drop_grace_passed(before@, self.registry(), self_id),
                Some(p) => p.0 < self.registry().len() && snap_blocks_teardown(
                    before@,
                    self.registry()[p.0 as int],
                    self_id,
                ) && (forall|x: int|
                    0 <= x < p.0 ==> !snap_blocks_teardown(
                        before@,
                        #[trigger] self.registry()[x],
                        self_id,
                    )) && p.1 == snap_spin_blocks(before@, self.registry()[p.0 as int], self_id),
            },
    {
        let n = self.threads.len();
        let mut j: usize = 0;
        while j < n
            invariant
                n == self.registry().len(),
                j <= n,
                forall|x: int|
                    0 <= x < j ==> !snap_blocks_teardown(
                        before@,
                        #[trigger] self.registry()[x],
                        self_id,
                    ),
            decreases n - j,
        {
            let t = *self.threads.get(j);
            if entry_blocked_teardown(before, &t, self_id) {
                let spin = entry_spin_blocked(before, &t, self_id);
                return Some((j, spin));
            }
            j = j + 1;
        }
        None
    }

    /// Registers a thread: a fresh record with `qstate == COUNTER_BASE` goes
    /// into the registry at its id's position. A duplicate id would break the
    /// registry invariant, so it is excluded.
    pub fn register(&mut self, id: u64) -> (h: QsbrThreadHandle)
        requires
            old(self).wf(),
            !has_id(old(self).registry(), id),
        ensures
            final(self).wf(),
            h.tid() == id,
            has_id(final(self).registry(), id),
            exists|i: int|
                0 <= i <= old(self).registry().len() && #[trigger] final(self).registry()
                    == old(self).registry().insert(i, Tentry { qstate: COUNTER_BASE, id }) && (
                forall|j: int| 0 <= j < i ==> old(self).registry()[j].id < id) && (forall|j: int|
                    i <= j < old(self).registry().len() ==> old(self).registry()[j].id > id),
    {
        proof {
            lemma_ascending_ids_sorted(self.registry());
        }
        let t = Tentry::new(id);
        let i = self.threads.insert(t);
        proof {
            let s = old(self).registry();
            let n = self.registry();
            assert forall|j: int| 0 <= j < i implies s[j].id < id by {
                assert(s[j].key() <= t.key());
                assert(s[j].id != id);
            }
            assert forall|j: int| i <= j < s.len() implies s[j].id > id by {
                assert(s[j].key() > t.key());
            }
            assert forall|a: int, b: int| 0 <= a && a < b && b < n.len() implies #[trigger] n[a].id
                < #[trigger] n[b].id by {
                if a < i && b < i {
                    assert(n[a] == s[a] && n[b] == s[b]);
                } else if a < i && b == i {
                    assert(n[a] == s[a] && n[b] == t);
                } else if a < i && b > i {
                    assert(n[a] == s[a] && n[b] == s[b - 1]);
                } else if a == i {
                    assert(n[a] == t && n[b] == s[b - 1]);
                } else {
                    assert(n[a] == s[a - 1] && n[b] == s[b - 1]);
                }
            }
            assert forall|j: int| 0 <= j < n.len() implies is_counter(#[trigger] n[j].qstate) by {
                if j < i {
                    assert(n[j] == s[j]);
                } else if j > i {
                    assert(n[j] == s[j - 1]);
                }
            }
            assert(n[i as int].id == id);
        }
        QsbrThreadHandle { id }
    }
}

} // verus!
