//! The Scarce-Resource Guard.
//!
//! Sampling may keep auxiliary OS file handles open, and the whole process
//! shares one budget of such handles. A guard is constructed only by taking
//! one slot from the budget — construction fails rather than blocks once the
//! budget is exhausted — and releasing the guard gives the slot back exactly
//! once.
//!
//! The budget here is a plain counter behind a mutable reference: one refresh
//! pass owns it at a time, which is the model this crate verifies. A host
//! that runs refresh passes concurrently must wrap it in its own
//! synchronization. Release is an explicit, consuming call, so a slot can
//! never be given back twice; a guard that is dropped without `release`
//! keeps its slot taken, so the embedding program must route every guard it
//! takes back through `release`.

use vstd::prelude::*;

verus! {

/// The process-wide budget of auxiliary file handles still available. Owned
/// by a context object of the embedding program and passed by reference into
/// every acquisition, so its lifetime and sharing scope stay explicit.
pub struct FileLimit {
    pub remaining: usize,
}

impl FileLimit {
    /// A fresh budget of `budget` slots.
    pub fn new(budget: usize) -> (r: Self)
        ensures
            r.remaining == budget,
    {
        FileLimit { remaining: budget }
    }

    /// How many slots are still available.
    pub fn remaining(&self) -> (r: usize)
        ensures
            r == self.remaining,
    {
        self.remaining
    }
}

/// A guard pairing one acquired budget slot with the handle it covers. It
/// can only be constructed by decrementing a strictly positive budget, and
/// releasing it increments the budget exactly once and hands the handle
/// back.
pub struct FileCounter<T> {
    pub handle: T,
}

impl<T> FileCounter<T> {
    /// Takes one slot from the budget: succeeds and decrements when a slot
    /// is available, fails and leaves the budget untouched when the budget
    /// is already zero — the caller proceeds without the optional handle.
    pub fn new(handle: T, limit: &mut FileLimit) -> (r: Option<Self>)
        ensures
            old(limit).remaining > 0 ==> r is Some && final(limit).remaining == old(
                limit,
            ).remaining - 1,
            old(limit).remaining == 0 ==> r is None && final(limit).remaining == 0,
            (match r {
                Some(g) => g.handle == handle,
                None => true,
            }),
    {
        if limit.remaining > 0 {
            limit.remaining = limit.remaining - 1;
            Some(FileCounter { handle })
        } else {
            None
        }
    }

    /// Gives the slot back and returns the handle. Each guard is consumed
    /// here, so its slot is released exactly once.
    pub fn release(self, limit: &mut FileLimit) -> (t: T)
        requires
            old(limit).remaining < usize::MAX,
        ensures
            final(limit).remaining == old(limit).remaining + 1,
            t == self.handle,
    {
        limit.remaining = limit.remaining + 1;
        self.handle
    }
}

} // verus!
