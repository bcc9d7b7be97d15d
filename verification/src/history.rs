//! Histories: the calls made on a table, one after the other, and what
//! holds of every one of them.
//!
//! A table is changed by one caller at a time, so whatever its callers do
//! together comes to it as some sequence of calls. The statements here hold
//! of every such sequence.

use vstd::prelude::*;

use crate::locktable::{entries_locked, locks_after, no_locks, state_of, Locks};
use crate::rwlatch::{LatchOp, LatchState};

verus! {

/// One call on a table: an operation and the key it is asked on.
pub struct Call {
    pub key: Seq<u8>,
    pub op: LatchOp,
}

/// The table after `calls`, made in order on `locks`.
pub open spec fn locks_after_all(locks: Locks, calls: Seq<Call>) -> Locks
    decreases calls.len(),
{
    if calls.len() == 0 {
        locks
    } else {
        locks_after(locks_after_all(locks, calls.drop_last()), calls.last().key, calls.last().op)
    }
}

/// The state in which call `i` of `calls` finds its key.
pub open spec fn state_before(locks: Locks, calls: Seq<Call>, i: int) -> LatchState {
    state_of(locks_after_all(locks, calls.take(i)), calls[i].key)
}

/// Whether call `i` of `calls` takes effect: for an attempt, its answer.
pub open spec fn answer(locks: Locks, calls: Seq<Call>, i: int) -> bool {
    state_before(locks, calls, i).grants(calls[i].op)
}

/// No call of `calls` is a misuse: each release and downgrade finds a hold
/// in the matching mode.
pub open spec fn all_permitted(locks: Locks, calls: Seq<Call>) -> bool {
    forall|i: int|
        0 <= i < calls.len() ==> (#[trigger] state_before(locks, calls, i)).permits(calls[i].op)
}

/// `n` attempts to share `key`.
pub open spec fn shared_attempts(key: Seq<u8>, n: nat) -> Seq<Call> {
    Seq::new(n, |i: int| Call { key, op: LatchOp::TryShared })
}

/// `n` rounds on `key`, each a shared hold taken and given up again.
pub open spec fn round_trips(key: Seq<u8>, n: nat) -> Seq<Call> {
    Seq::new(
        2 * n,
        |i: int|
            Call { key, op: if i % 2 == 0 {
                LatchOp::TryShared
            } else {
                LatchOp::ReleaseShared
            } },
    )
}

/// What a call that finds its key in `state` adds to the number of holds on
/// it: one for an attempt to lock that is granted, one less for a release,
/// nothing for a change of mode.
pub open spec fn holds_gained(state: LatchState, op: LatchOp) -> int {
    match op {
        LatchOp::TryShared | LatchOp::TryExclusive => if state.grants(op) {
            1
        } else {
            0
        },
        LatchOp::ReleaseShared | LatchOp::ReleaseExclusive => -1,
        LatchOp::TryUpgrade | LatchOp::Downgrade => 0,
    }
}

/// The holds on `key` that `calls` took and did not give up: the granted
/// attempts to lock it, less the releases.
pub open spec fn outstanding(locks: Locks, calls: Seq<Call>, key: Seq<u8>) -> int
    decreases calls.len(),
{
    if calls.len() == 0 {
        0
    } else {
        let earlier = calls.drop_last();
        outstanding(locks, earlier, key) + if calls.last().key == key {
            holds_gained(state_of(locks_after_all(locks, earlier), key), calls.last().op)
        } else {
            0
        }
    }
}

/// A call leaves the states of all keys but its own as they were, and keeps
/// entry and lock synonymous.
pub proof fn lemma_call_is_local(locks: Locks, key: Seq<u8>, op: LatchOp)
    requires
        entries_locked(locks),
    ensures
        entries_locked(locks_after(locks, key, op)),
        state_of(locks_after(locks, key, op), key) == state_of(locks, key).after(op),
        forall|other: Seq<u8>|
            other != key ==> state_of(locks_after(locks, key, op), other) == state_of(
                locks,
                other,
            ),
{
}

/// Calls on different keys do not order each other: made either way round
/// they get the same answers and leave the same table.
pub proof fn lemma_calls_on_different_keys_commute(
    locks: Locks,
    key: Seq<u8>,
    op: LatchOp,
    other: Seq<u8>,
    other_op: LatchOp,
)
    requires
        key != other,
    ensures
        state_of(locks_after(locks, key, op), other) == state_of(locks, other),
        state_of(locks_after(locks, other, other_op), key) == state_of(locks, key),
        locks_after(locks_after(locks, key, op), other, other_op) == locks_after(
            locks_after(locks, other, other_op),
            key,
            op,
        ),
{
    assert(locks_after(locks_after(locks, key, op), other, other_op) =~= locks_after(
        locks_after(locks, other, other_op),
        key,
        op,
    ));
}

/// Entry and lock stay synonymous through every history.
pub proof fn lemma_history_keeps_entries_locked(locks: Locks, calls: Seq<Call>)
    requires
        entries_locked(locks),
    ensures
        entries_locked(locks_after_all(locks, calls)),
    decreases calls.len(),
{
    if calls.len() > 0 {
        lemma_history_keeps_entries_locked(locks, calls.drop_last());
        lemma_call_is_local(
            locks_after_all(locks, calls.drop_last()),
            calls.last().key,
            calls.last().op,
        );
    }
}

/// Shared holds add up: on a key that no writer holds, `n` attempts to share
/// it are all granted, and the key has that many holders more. On a key
/// that was unlocked the count is `n`.
pub proof fn lemma_shared_holds_add_up(locks: Locks, key: Seq<u8>, n: nat)
    requires
        state_of(locks, key) !is Exclusive,
    ensures
        forall|i: int| 0 <= i < n ==> #[trigger] answer(locks, shared_attempts(key, n), i),
        state_of(locks_after_all(locks, shared_attempts(key, n)), key).shared_count()
            == state_of(locks, key).shared_count() + n,
        n > 0 ==> state_of(locks_after_all(locks, shared_attempts(key, n)), key) is Shared,
    decreases n,
{
    let calls = shared_attempts(key, n);
    if n > 0 {
        let fewer = (n - 1) as nat;
        lemma_shared_holds_add_up(locks, key, fewer);
        assert(calls.drop_last() =~= shared_attempts(key, fewer));
        assert forall|i: int| 0 <= i < n implies #[trigger] answer(locks, calls, i) by {
            if i < n - 1 {
                assert(calls.take(i) =~= shared_attempts(key, fewer).take(i));
                assert(answer(locks, shared_attempts(key, fewer), i));
            } else {
                assert(calls.take(i) =~= shared_attempts(key, fewer));
            }
        }
    }
}

/// An exclusive hold shuts every other caller out: while nobody releases or
/// downgrades it, the key stays exclusive whatever else is called, and every
/// attempt on the key is refused.
pub proof fn lemma_exclusive_shuts_out(locks: Locks, calls: Seq<Call>, key: Seq<u8>)
    requires
        state_of(locks, key) is Exclusive,
        forall|i: int|
            0 <= i < calls.len() && (#[trigger] calls[i]).key == key ==> calls[i].op.is_attempt(),
    ensures
        state_of(locks_after_all(locks, calls), key) is Exclusive,
        forall|i: int|
            0 <= i < calls.len() && (#[trigger] calls[i]).key == key ==> !answer(locks, calls, i),
    decreases calls.len(),
{
    if calls.len() > 0 {
        let earlier = calls.drop_last();
        lemma_exclusive_shuts_out(locks, earlier, key);
        assert forall|i: int| 0 <= i < calls.len() && (#[trigger] calls[i]).key == key implies !answer(
            locks,
            calls,
            i,
        ) by {
            if i < calls.len() - 1 {
                assert(calls.take(i) =~= earlier.take(i));
                assert(earlier[i] == calls[i]);
                assert(!answer(locks, earlier, i));
            } else {
                assert(calls.take(i) =~= earlier);
            }
        }
    }
}

/// A downgrade leaves the key shared by its one holder, and lets a second
/// reader in.
pub proof fn lemma_downgrade_admits_reader(locks: Locks, key: Seq<u8>)
    requires
        state_of(locks, key) is Exclusive,
    ensures
        state_of(locks_after(locks, key, LatchOp::Downgrade), key) == LatchState::Shared(1),
        state_of(locks_after(locks, key, LatchOp::Downgrade), key).grants(LatchOp::TryShared),
        state_of(
            locks_after(locks_after(locks, key, LatchOp::Downgrade), key, LatchOp::TryShared),
            key,
        ) == LatchState::Shared(2),
{
}

proof fn lemma_earlier_permitted(locks: Locks, calls: Seq<Call>)
    requires
        calls.len() > 0,
        all_permitted(locks, calls),
    ensures
        all_permitted(locks, calls.drop_last()),
        state_of(locks_after_all(locks, calls.drop_last()), calls.last().key).permits(
            calls.last().op,
        ),
{
    let earlier = calls.drop_last();
    assert forall|i: int| 0 <= i < earlier.len() implies (#[trigger] state_before(
        locks,
        earlier,
        i,
    )).permits(earlier[i].op) by {
        assert(calls.take(i) =~= earlier.take(i));
        assert(state_before(locks, calls, i).permits(calls[i].op));
    }
    assert(calls.take(calls.len() - 1) =~= earlier);
    assert(state_before(locks, calls, calls.len() - 1).permits(calls.last().op));
}

/// The holders of a key are accounted for: after a history without misuse a
/// key has as many holders as it had before, and the holds that the history
/// took and did not give up.
pub proof fn lemma_holders_accounted(locks: Locks, calls: Seq<Call>, key: Seq<u8>)
    requires
        entries_locked(locks),
        all_permitted(locks, calls),
    ensures
        state_of(locks_after_all(locks, calls), key).holders() == state_of(locks, key).holders()
            + outstanding(locks, calls, key),
    decreases calls.len(),
{
    if calls.len() > 0 {
        let earlier = calls.drop_last();
        lemma_earlier_permitted(locks, calls);
        lemma_holders_accounted(locks, earlier, key);
        lemma_history_keeps_entries_locked(locks, earlier);
        lemma_call_is_local(locks_after_all(locks, earlier), calls.last().key, calls.last().op);
    }
}

/// Cleanup: once every hold that a history took on a key is given up, the
/// key has no entry, and the next attempt to lock it is granted as the first
/// one on a new table would be.
pub proof fn lemma_matched_holds_leave_no_entry(locks: Locks, calls: Seq<Call>, key: Seq<u8>)
    requires
        entries_locked(locks),
        !locks.contains_key(key),
        all_permitted(locks, calls),
        outstanding(locks, calls, key) == 0,
    ensures
        !locks_after_all(locks, calls).contains_key(key),
        state_of(locks_after_all(locks, calls), key) == state_of(no_locks(), key),
        state_of(locks_after_all(locks, calls), key).grants(LatchOp::TryShared),
        state_of(locks_after_all(locks, calls), key).grants(LatchOp::TryExclusive),
{
    lemma_holders_accounted(locks, calls, key);
    lemma_history_keeps_entries_locked(locks, calls);
}

/// A history without misuse that gives up every hold it took, on every key,
/// leaves a table that was empty empty.
pub proof fn lemma_matched_history_leaves_nothing(calls: Seq<Call>)
    requires
        all_permitted(no_locks(), calls),
        forall|key: Seq<u8>| outstanding(no_locks(), calls, key) == 0,
    ensures
        locks_after_all(no_locks(), calls) == no_locks(),
{
    assert forall|key: Seq<u8>| !locks_after_all(no_locks(), calls).contains_key(key) by {
        lemma_matched_holds_leave_no_entry(no_locks(), calls, key);
    }
    assert(locks_after_all(no_locks(), calls) =~= no_locks());
}

/// A shared hold taken and given up again, any number of times, leaves the
/// table as it was: each attempt is granted, each release finds its hold,
/// and a key that had no entry has none afterwards.
pub proof fn lemma_round_trips_leave_no_trace(locks: Locks, key: Seq<u8>, n: nat)
    requires
        !locks.contains_key(key),
    ensures
        locks_after_all(locks, round_trips(key, n)) == locks,
        all_permitted(locks, round_trips(key, n)),
        forall|i: int|
            0 <= i < 2 * n ==> #[trigger] answer(locks, round_trips(key, n), i),
    decreases n,
{
    let calls = round_trips(key, n);
    if n > 0 {
        let fewer = (n - 1) as nat;
        let earlier = round_trips(key, fewer);
        lemma_round_trips_leave_no_trace(locks, key, fewer);
        let taken = calls.drop_last();
        assert(taken.drop_last() =~= earlier);
        assert(locks_after_all(locks, taken) == locks.insert(key, LatchState::Shared(1)));
        assert(locks.insert(key, LatchState::Shared(1)).remove(key) =~= locks);
        assert forall|i: int| 0 <= i < 2 * n implies (#[trigger] state_before(
            locks,
            calls,
            i,
        )).permits(calls[i].op) && answer(locks, calls, i) by {
            if i < 2 * n - 2 {
                assert(calls.take(i) =~= earlier.take(i));
                assert(state_before(locks, earlier, i).permits(earlier[i].op));
                assert(answer(locks, earlier, i));
            } else if i == 2 * n - 2 {
                assert(calls.take(i) =~= earlier);
            } else {
                assert(calls.take(i) =~= taken);
            }
        }
    }
}

} // verus!
