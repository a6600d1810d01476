//! The lifetime bridge.
//!
//! A session must own a value (a connection, or the transaction standing in
//! for it) while callers work through a handle derived from it, and must be
//! able to get full ownership back when the session ends, so the value can
//! be disposed of. The encoding here keeps the owned value in a slot beside
//! everything else, hands out borrows of it, and swaps it out exactly once
//! at reclaim time. The reclaim-at-most-once discipline - the riskiest
//! invariant of the whole lifecycle - is carried by `reclaim`'s contract:
//! the first call returns the value, every later call returns nothing.

use vstd::prelude::*;
use vstd::pervasive::unreached;

verus! {

/// One slot owning a bridged value until it is reclaimed for disposal.
pub struct Bridge<T> {
    slot: Option<T>,
}

impl<T> Bridge<T> {
    /// What the bridge still owns.
    pub closed spec fn holds(&self) -> Option<T> {
        self.slot
    }

    /// Take ownership of `value` for the rest of the session.
    pub fn bridge(value: T) -> (b: Bridge<T>)
        ensures
            b.holds() == Some(value),
    {
        Bridge { slot: Some(value) }
    }

    /// Whether the value is still owned here (not yet reclaimed).
    pub fn is_live(&self) -> (r: bool)
        ensures
            r == (self.holds() is Some),
    {
        self.slot.is_some()
    }

    /// Borrow the bridged value. Demanding it after reclaim is the
    /// use-after-teardown fault; the precondition rules it out, and
    /// unverified callers must test `is_live` first.
    pub fn peek(&self) -> (r: &T)
        requires
            self.holds() is Some,
        ensures
            *r == self.holds().unwrap(),
    {
        match &self.slot {
            Some(v) => v,
            None => unreached(),
        }
    }

    /// Borrow the bridged value mutably, under the same discipline.
    pub fn handle(&mut self) -> (r: &mut T)
        requires
            old(self).holds() is Some,
        ensures
            *r == old(self).holds().unwrap(),
            final(self).holds() == Some(*final(r)),
    {
        match &mut self.slot {
            Some(v) => v,
            None => unreached(),
        }
    }

    /// Reclaim the owned value. The first call returns it and empties the
    /// bridge; every later call returns nothing, so disposal runs at most
    /// once however many times teardown is attempted.
    pub fn reclaim(&mut self) -> (r: Option<T>)
        ensures
            final(self).holds() is None,
            r == old(self).holds(),
    {
        self.slot.take()
    }
}

} // verus!
