//! The session: owns one connection's lifecycle from construction through
//! teardown.
//!
//! The driver work itself is asynchronous I/O and runs outside this library;
//! the session decides what the driver must do. Construction validates the
//! directive set and hands out the construction plan; teardown hands out the
//! teardown plan exactly once, however many times it is requested, so an
//! explicit close followed by a scope-exit close cannot roll back or close
//! the connection twice.

use vstd::prelude::*;

use crate::directive::{valid_directive_set, up_ordinals_of, validate_directives, Directive, Mode};
use crate::model::Action;
use crate::plan;
use crate::plan::{construction_actions, failure_actions, teardown_actions};
use crate::SessionError;

verus! {

/// The currently active derived access point of a session.
#[derive(Clone, Copy, PartialEq, Eq, Structural, Debug)]
pub enum ActiveHandle {
    /// A bare connection: `MigrationRollback` mode.
    Connection,
    /// An open outer transaction over the connection: `TransactionWrapped`
    /// mode.
    Transaction,
    /// The sentinel entered exactly once, at teardown. The handle is never
    /// read or written again.
    Consumed,
}

/// One ephemeral database session. The caller holds the real connection; the
/// session holds the mode, the directive set (retained so teardown in
/// `MigrationRollback` mode can replay it in reverse), and the consumed flag
/// that guards teardown.
pub struct Session {
    mode: Mode,
    steps: Vec<Directive>,
    consumed: bool,
}

impl Session {
    /// The isolation mode fixed at construction.
    pub closed spec fn mode_spec(&self) -> Mode {
        self.mode
    }

    /// The directive set the session was built with.
    pub closed spec fn directives(&self) -> Seq<Directive> {
        self.steps@
    }

    /// Whether teardown has already been handed out.
    pub closed spec fn is_consumed(&self) -> bool {
        self.consumed
    }

    /// Start a session over a well-formed directive set. A set whose up
    /// ordinals are not strictly ascending, or with a directive that lacks
    /// its inverse, is rejected here rather than left to surprise teardown.
    pub fn new(steps: Vec<Directive>, mode: Mode) -> (r: Result<Session, SessionError>)
        ensures
            match r {
                Ok(s) => valid_directive_set(steps@) && s.directives() == steps@
                    && s.mode_spec() == mode && !s.is_consumed(),
                Err(e) => !valid_directive_set(steps@) && e == SessionError::MigrationFailed,
            },
    {
        if validate_directives(&steps) {
            Ok(Session { mode, steps, consumed: false })
        } else {
            Err(SessionError::MigrationFailed)
        }
    }

    /// Which access point is active for this session.
    pub open spec fn handle_state(&self) -> ActiveHandle {
        if self.is_consumed() {
            ActiveHandle::Consumed
        } else if self.mode_spec() is TransactionWrapped {
            ActiveHandle::Transaction
        } else {
            ActiveHandle::Connection
        }
    }

    /// The access point the caller may use right now: the kind of handle
    /// this mode exposes while the session is live, and the `Consumed`
    /// sentinel once teardown has begun.
    pub fn handle(&self) -> (h: ActiveHandle)
        ensures
            h == self.handle_state(),
    {
        if self.consumed {
            ActiveHandle::Consumed
        } else {
            match self.mode {
                Mode::TransactionWrapped => ActiveHandle::Transaction,
                Mode::MigrationRollback => ActiveHandle::Connection,
            }
        }
    }

    /// The isolation mode.
    pub fn mode(&self) -> (m: Mode)
        ensures
            m == self.mode_spec(),
    {
        self.mode
    }

    /// Whether the handle may still be used. Using it once this is false is
    /// the `UseAfterTeardown` programming error; callers outside verified
    /// code must test this before touching the handle.
    pub fn handle_active(&self) -> (b: bool)
        ensures
            b == !self.is_consumed(),
    {
        !self.consumed
    }

    /// The plan construction must run, in order, against the fresh
    /// connection.
    pub fn construction_plan(&self) -> (p: Vec<Action>)
        ensures
            p@ == construction_actions(self.mode_spec(), self.directives()),
    {
        plan::construction_plan(self.mode, &self.steps)
    }

    /// The cleanup plan for a construction that failed after `applied_count`
    /// up directives had been applied: no connection leak, no schema left
    /// behind.
    pub fn failure_plan(&self, applied_count: usize) -> (p: Vec<Action>)
        requires
            applied_count <= up_ordinals_of(self.directives()).len(),
        ensures
            p@ == failure_actions(self.mode_spec(), self.directives(), applied_count as int),
    {
        plan::failure_plan(self.mode, &self.steps, applied_count)
    }

    /// Request teardown. The first call consumes the session and returns the
    /// teardown plan for the caller to run against the driver; every later
    /// call (say, a scope-exit close after an explicit one) is a no-op and
    /// returns nothing, so the sequence runs at most once.
    pub fn close(&mut self) -> (p: Option<Vec<Action>>)
        ensures
            final(self).is_consumed(),
            final(self).mode_spec() == old(self).mode_spec(),
            final(self).directives() == old(self).directives(),
            match p {
                Some(actions) => !old(self).is_consumed() && actions@ == teardown_actions(
                    old(self).mode_spec(),
                    old(self).directives(),
                ),
                None => old(self).is_consumed(),
            },
    {
        if self.consumed {
            None
        } else {
            self.consumed = true;
            Some(plan::teardown_plan(self.mode, &self.steps))
        }
    }
}

} // verus!
