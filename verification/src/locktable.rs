//! The lock table: a map from key to latch that holds an entry exactly while
//! the key is locked.

use dashmap::DashMap;
use vstd::prelude::*;
use vstd::slice::slice_to_vec;

use crate::entries::{contents, discard, empty_map, holds_nothing, listing, lookup, store};
use crate::rwlatch::{LatchOp, LatchState, RwLatch};

verus! {

/// What a table amounts to: the locked keys, each with the state of its latch.
pub type Locks = Map<Seq<u8>, LatchState>;

/// The table in which no key is locked.
pub open spec fn no_locks() -> Locks {
    Map::empty()
}

/// The state of `key`: that of its entry, and unlocked where it has none.
pub open spec fn state_of(locks: Locks, key: Seq<u8>) -> LatchState {
    if locks.contains_key(key) {
        locks[key]
    } else {
        LatchState::Unlocked
    }
}

/// `locks` with `key` brought to `state`. A key that becomes unlocked loses
/// its entry; any other state is recorded under it.
pub open spec fn with_state(locks: Locks, key: Seq<u8>, state: LatchState) -> Locks {
    if state.is_locked() {
        locks.insert(key, state)
    } else {
        locks.remove(key)
    }
}

/// The table after `op` on `key`.
pub open spec fn locks_after(locks: Locks, key: Seq<u8>, op: LatchOp) -> Locks {
    with_state(locks, key, state_of(locks, key).after(op))
}

/// Entry and lock are synonymous: every key with an entry is locked, and a
/// shared entry has at least one holder.
pub open spec fn entries_locked(locks: Locks) -> bool {
    forall|key: Seq<u8>| #[trigger]
        locks.contains_key(key) ==> locks[key].is_locked() && locks[key].wf()
}

/// Whether `list` names every locked key of `locks` once, each with a latch
/// in the state that `locks` gives the key.
pub open spec fn lists(list: Seq<(Vec<u8>, RwLatch)>, locks: Locks) -> bool {
    &&& forall|i: int|
        0 <= i < list.len() ==> locks.contains_key((#[trigger] list[i]).0@) && locks[list[i].0@]
            == list[i].1@
    &&& forall|key: Seq<u8>| #[trigger]
        locks.contains_key(key) ==> exists|i: int|
            0 <= i < list.len() && (#[trigger] list[i]).0@ == key
    &&& forall|i: int, j: int|
        0 <= i < j < list.len() ==> (#[trigger] list[i]).0@ != (#[trigger] list[j]).0@
}

/// A table of reader/writer locks on byte-string keys.
///
/// Every operation takes the table by a mutable reference, so that the steps
/// it is made of (find or make the entry, change the latch, drop the entry
/// of a key that became unlocked) are one step to every other caller.
pub struct SimpleLockTable {
    entries: DashMap<Vec<u8>, RwLatch>,
}

impl View for SimpleLockTable {
    type V = Locks;

    closed spec fn view(&self) -> Locks {
        contents(self.entries).map_values(|latch: RwLatch| latch@)
    }
}

impl SimpleLockTable {
    /// No stored latch has a writer beside readers.
    pub closed spec fn latches_wf(&self) -> bool {
        forall|key: Seq<u8>| #[trigger]
            contents(self.entries).contains_key(key) ==> contents(self.entries)[key].wf()
    }

    /// What every table is: its latches are sound, and it has an entry for a
    /// key exactly while the key is locked.
    pub open spec fn wf(&self) -> bool {
        &&& self.latches_wf()
        &&& entries_locked(self@)
    }

    /// The state of `key` in this table.
    pub open spec fn state(&self, key: Seq<u8>) -> LatchState {
        state_of(self@, key)
    }

    /// A table in which no key is locked.
    pub fn new() -> (table: SimpleLockTable)
        ensures
            table.wf(),
            table@ == no_locks(),
    {
        let table = SimpleLockTable { entries: empty_map() };
        assert(table@ =~= no_locks());
        table
    }

    /// The latch of `key`, or `None` where the key is not locked.
    pub fn latch(&self, key: &[u8]) -> (found: Option<RwLatch>)
        requires
            self.wf(),
        ensures
            found is Some <==> self@.contains_key(key@),
            found matches Some(latch) ==> latch.wf() && latch@ == self@[key@],
    {
        lookup(&self.entries, key)
    }

    /// Takes a shared hold on `key`: granted unless a writer holds it. The
    /// first holder of a key makes its entry.
    pub fn try_shared(&mut self, key: Vec<u8>) -> (granted: bool)
        requires
            old(self).wf(),
            old(self).state(key@).shared_count() < usize::MAX,
        ensures
            final(self).wf(),
            granted == old(self).state(key@).grants(LatchOp::TryShared),
            granted == (old(self).state(key@) !is Exclusive),
            final(self)@ == locks_after(old(self)@, key@, LatchOp::TryShared),
    {
        match lookup(&self.entries, key.as_slice()) {
            Some(mut latch) => {
                let granted = latch.try_shared();
                if granted {
                    store(&mut self.entries, key, latch);
                }
                assert(self@ =~= locks_after(old(self)@, key@, LatchOp::TryShared));
                granted
            },
            None => {
                let mut latch = RwLatch::default();
                let granted = latch.try_shared();
                store(&mut self.entries, key, latch);
                assert(self@ =~= locks_after(old(self)@, key@, LatchOp::TryShared));
                granted
            },
        }
    }

    /// Takes the exclusive hold on `key`: granted only if nobody holds it.
    pub fn try_exclusive(&mut self, key: Vec<u8>) -> (granted: bool)
        requires
            old(self).wf(),
        ensures
            final(self).wf(),
            granted == old(self).state(key@).grants(LatchOp::TryExclusive),
            granted == !old(self)@.contains_key(key@),
            final(self)@ == locks_after(old(self)@, key@, LatchOp::TryExclusive),
    {
        match lookup(&self.entries, key.as_slice()) {
            Some(mut latch) => {
                let granted = latch.try_exclusive();
                if granted {
                    store(&mut self.entries, key, latch);
                }
                assert(self@ =~= locks_after(old(self)@, key@, LatchOp::TryExclusive));
                granted
            },
            None => {
                let mut latch = RwLatch::default();
                let granted = latch.try_exclusive();
                store(&mut self.entries, key, latch);
                assert(self@ =~= locks_after(old(self)@, key@, LatchOp::TryExclusive));
                granted
            },
        }
    }

    /// Turns the caller's shared hold on `key` into the exclusive one:
    /// granted exactly when it is the only hold. On a key that is not locked
    /// the answer is `false`.
    pub fn try_upgrade(&mut self, key: Vec<u8>) -> (granted: bool)
        requires
            old(self).wf(),
        ensures
            final(self).wf(),
            granted == (old(self).state(key@) == LatchState::Shared(1)),
            granted == old(self).state(key@).grants(LatchOp::TryUpgrade),
            final(self)@ == locks_after(old(self)@, key@, LatchOp::TryUpgrade),
    {
        match lookup(&self.entries, key.as_slice()) {
            Some(mut latch) => {
                let granted = latch.try_upgrade();
                if granted {
                    store(&mut self.entries, key, latch);
                }
                assert(self@ =~= locks_after(old(self)@, key@, LatchOp::TryUpgrade));
                granted
            },
            None => {
                assert(self@ =~= locks_after(old(self)@, key@, LatchOp::TryUpgrade));
                false
            },
        }
    }

    /// Turns the exclusive hold on `key` into a single shared one.
    pub fn downgrade(&mut self, key: &[u8])
        requires
            old(self).wf(),
            old(self).state(key@).permits(LatchOp::Downgrade),
        ensures
            final(self).wf(),
            final(self).state(key@) == LatchState::Shared(1),
            final(self)@ == locks_after(old(self)@, key@, LatchOp::Downgrade),
    {
        let mut latch = lookup(&self.entries, key).unwrap();
        latch.downgrade();
        store(&mut self.entries, slice_to_vec(key), latch);
        assert(self@ =~= locks_after(old(self)@, key@, LatchOp::Downgrade));
    }

    /// Gives up one shared hold on `key`. The entry goes with the last
    /// holder.
    pub fn release_shared(&mut self, key: Vec<u8>)
        requires
            old(self).wf(),
            old(self).state(key@).permits(LatchOp::ReleaseShared),
        ensures
            final(self).wf(),
            final(self)@ == locks_after(old(self)@, key@, LatchOp::ReleaseShared),
    {
        let mut latch = lookup(&self.entries, key.as_slice()).unwrap();
        latch.release_shared();
        if latch.is_locked() {
            store(&mut self.entries, key, latch);
        } else {
            discard(&mut self.entries, key.as_slice());
        }
        assert(self@ =~= locks_after(old(self)@, key@, LatchOp::ReleaseShared));
    }

    /// Gives up the exclusive hold on `key`, and with it the entry.
    pub fn release_exclusive(&mut self, key: Vec<u8>)
        requires
            old(self).wf(),
            old(self).state(key@).permits(LatchOp::ReleaseExclusive),
        ensures
            final(self).wf(),
            !final(self)@.contains_key(key@),
            final(self)@ == locks_after(old(self)@, key@, LatchOp::ReleaseExclusive),
    {
        let mut latch = lookup(&self.entries, key.as_slice()).unwrap();
        latch.release_exclusive();
        if latch.is_locked() {
            store(&mut self.entries, key, latch);
        } else {
            discard(&mut self.entries, key.as_slice());
        }
        assert(self@ =~= locks_after(old(self)@, key@, LatchOp::ReleaseExclusive));
    }

    /// The locked keys with their latches, in no particular order.
    pub fn snapshot(&self) -> (list: Vec<(Vec<u8>, RwLatch)>)
        requires
            self.wf(),
        ensures
            lists(list@, self@),
            forall|i: int| 0 <= i < list@.len() ==> (#[trigger] list@[i]).1.wf(),
    {
        listing(&self.entries)
    }

    /// Whether no key is locked.
    pub fn check_all_released(&self) -> (released: bool)
        requires
            self.wf(),
        ensures
            released == (self@ =~= no_locks()),
    {
        let released = holds_nothing(&self.entries);
        proof {
            if released {
                assert(self@ =~= no_locks());
            } else {
                assert(contents(self.entries).dom() =~= self@.dom());
            }
        }
        released
    }
}

} // verus!
