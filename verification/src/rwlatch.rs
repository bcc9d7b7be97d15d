//! The latch of one key: a count of shared holders beside an exclusive flag,
//! and the transitions between unlocked, shared and exclusive.

use vstd::prelude::*;

verus! {

/// What a latch amounts to: nobody holds the key, some number of readers
/// hold it together, or one writer holds it alone.
pub enum LatchState {
    Unlocked,
    /// Held in shared mode; the field is the number of holders, at least one.
    Shared(nat),
    Exclusive,
}

/// The operations that a latch adjudicates.
pub enum LatchOp {
    TryShared,
    TryExclusive,
    TryUpgrade,
    Downgrade,
    ReleaseShared,
    ReleaseExclusive,
}

impl LatchOp {
    /// The three attempts, which may be refused; the other three change a
    /// hold that the caller already has.
    pub open spec fn is_attempt(self) -> bool {
        self is TryShared || self is TryExclusive || self is TryUpgrade
    }
}

impl LatchState {
    /// A shared state has at least one holder.
    pub open spec fn wf(self) -> bool {
        self matches LatchState::Shared(n) ==> n >= 1
    }

    pub open spec fn is_locked(self) -> bool {
        self !is Unlocked
    }

    /// The number of shared holders.
    pub open spec fn shared_count(self) -> nat {
        match self {
            LatchState::Shared(n) => n,
            _ => 0,
        }
    }

    /// The number of callers that hold the key in either mode.
    pub open spec fn holders(self) -> nat {
        match self {
            LatchState::Unlocked => 0,
            LatchState::Shared(n) => n,
            LatchState::Exclusive => 1,
        }
    }

    /// Whether `op` is a legitimate request in this state. An attempt always
    /// is; a release or a downgrade is one only of a hold in the matching
    /// mode, and is a caller's fault otherwise.
    pub open spec fn permits(self, op: LatchOp) -> bool {
        match op {
            LatchOp::TryShared | LatchOp::TryExclusive | LatchOp::TryUpgrade => true,
            LatchOp::Downgrade | LatchOp::ReleaseExclusive => self is Exclusive,
            LatchOp::ReleaseShared => self is Shared,
        }
    }

    /// Whether `op` takes effect in this state: the answer of an attempt.
    /// A permitted release or downgrade always takes effect.
    pub open spec fn grants(self, op: LatchOp) -> bool {
        match op {
            LatchOp::TryShared => self !is Exclusive,
            LatchOp::TryExclusive => self is Unlocked,
            LatchOp::TryUpgrade => self == LatchState::Shared(1),
            LatchOp::Downgrade | LatchOp::ReleaseExclusive => self is Exclusive,
            LatchOp::ReleaseShared => self is Shared,
        }
    }

    /// The state that follows `op`. Where `op` does not take effect the
    /// state stays as it is.
    pub open spec fn after(self, op: LatchOp) -> LatchState {
        if !self.grants(op) {
            self
        } else {
            match op {
                LatchOp::TryShared => LatchState::Shared(self.shared_count() + 1),
                LatchOp::TryExclusive | LatchOp::TryUpgrade => LatchState::Exclusive,
                LatchOp::Downgrade => LatchState::Shared(1),
                LatchOp::ReleaseShared => if self.shared_count() <= 1 {
                    LatchState::Unlocked
                } else {
                    LatchState::Shared((self.shared_count() - 1) as nat)
                },
                LatchOp::ReleaseExclusive => LatchState::Unlocked,
            }
        }
    }
}

/// The reader/writer latch of one key.
///
/// The latch records no identity: it trusts its callers to release and to
/// upgrade only what they hold.
#[derive(Clone, Copy, Debug, PartialEq, Eq, Structural)]
pub struct RwLatch {
    shared_count: usize,
    exclusive_held: bool,
}

impl View for RwLatch {
    type V = LatchState;

    open spec fn view(&self) -> LatchState {
        if self.exclusive_held() {
            LatchState::Exclusive
        } else if self.shared_count() > 0 {
            LatchState::Shared(self.shared_count() as nat)
        } else {
            LatchState::Unlocked
        }
    }
}

impl RwLatch {
    pub closed spec fn spec_shared_count(&self) -> usize {
        self.shared_count
    }

    pub closed spec fn spec_exclusive_held(&self) -> bool {
        self.exclusive_held
    }

    /// Mutual exclusion: a writer and readers never hold the key together.
    pub open spec fn wf(&self) -> bool {
        !(self.exclusive_held() && self.shared_count() > 0)
    }

    /// An unlocked latch.
    pub fn new() -> (latch: RwLatch)
        ensures
            latch.wf(),
            latch@ == LatchState::Unlocked,
            latch.shared_count() == 0,
            !latch.exclusive_held(),
    {
        RwLatch { shared_count: 0, exclusive_held: false }
    }

    /// The number of shared holders.
    #[verifier::when_used_as_spec(spec_shared_count)]
    pub fn shared_count(&self) -> (n: usize)
        ensures
            n == self.shared_count(),
    {
        self.shared_count
    }

    /// Whether a writer holds the key.
    #[verifier::when_used_as_spec(spec_exclusive_held)]
    pub fn exclusive_held(&self) -> (held: bool)
        ensures
            held == self.exclusive_held(),
    {
        self.exclusive_held
    }

    /// Whether anybody holds the key, in either mode.
    pub fn is_locked(&self) -> (locked: bool)
        ensures
            locked == self@.is_locked(),
    {
        self.exclusive_held || self.shared_count > 0
    }

    /// Adds a shared holder unless a writer holds the key.
    pub fn try_shared(&mut self) -> (granted: bool)
        requires
            old(self).wf(),
            old(self).shared_count() < usize::MAX,
        ensures
            final(self).wf(),
            granted == old(self)@.grants(LatchOp::TryShared),
            final(self)@ == old(self)@.after(LatchOp::TryShared),
    {
        if self.exclusive_held {
            false
        } else {
            self.shared_count = self.shared_count + 1;
            true
        }
    }

    /// Takes the key for one writer if nobody holds it.
    pub fn try_exclusive(&mut self) -> (granted: bool)
        requires
            old(self).wf(),
        ensures
            final(self).wf(),
            granted == old(self)@.grants(LatchOp::TryExclusive),
            final(self)@ == old(self)@.after(LatchOp::TryExclusive),
    {
        if self.exclusive_held || self.shared_count > 0 {
            false
        } else {
            self.exclusive_held = true;
            true
        }
    }

    /// Turns a shared hold into the exclusive one, which succeeds exactly
    /// when the caller is the only shared holder.
    pub fn try_upgrade(&mut self) -> (granted: bool)
        requires
            old(self).wf(),
        ensures
            final(self).wf(),
            granted == (old(self)@ == LatchState::Shared(1)),
            granted == old(self)@.grants(LatchOp::TryUpgrade),
            final(self)@ == old(self)@.after(LatchOp::TryUpgrade),
    {
        if !self.exclusive_held && self.shared_count == 1 {
            self.shared_count = 0;
            self.exclusive_held = true;
            true
        } else {
            false
        }
    }

    /// Turns the exclusive hold into a single shared one.
    pub fn downgrade(&mut self)
        requires
            old(self).wf(),
            old(self)@.permits(LatchOp::Downgrade),
        ensures
            final(self).wf(),
            final(self)@ == LatchState::Shared(1),
            final(self)@ == old(self)@.after(LatchOp::Downgrade),
    {
        self.exclusive_held = false;
        self.shared_count = 1;
    }

    /// Takes one shared holder away.
    pub fn release_shared(&mut self)
        requires
            old(self).wf(),
            old(self)@.permits(LatchOp::ReleaseShared),
        ensures
            final(self).wf(),
            final(self)@ == old(self)@.after(LatchOp::ReleaseShared),
            final(self).shared_count() == old(self).shared_count() - 1,
    {
        self.shared_count = self.shared_count - 1;
    }

    /// Gives the exclusive hold up.
    pub fn release_exclusive(&mut self)
        requires
            old(self).wf(),
            old(self)@.permits(LatchOp::ReleaseExclusive),
        ensures
            final(self).wf(),
            final(self)@ == LatchState::Unlocked,
            final(self)@ == old(self)@.after(LatchOp::ReleaseExclusive),
    {
        self.exclusive_held = false;
    }
}

impl Default for RwLatch {
    fn default() -> (latch: RwLatch)
        ensures
            latch.wf(),
            latch@ == LatchState::Unlocked,
    {
        RwLatch::new()
    }
}

} // verus!
