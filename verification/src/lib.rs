//! Ephemeral database test sessions.
//!
//! A session takes one freshly opened connection, brings the schema up to
//! date by applying an ordered set of migration directives, exposes a handle
//! for test logic, and guarantees that teardown undoes every effect of the
//! session and closes the connection, whether teardown is requested
//! explicitly or happens at scope exit.
//!
//! The database work itself is asynchronous driver I/O and runs outside this
//! library. What is verified here is the logic that decides what the driver
//! must do: directive validation, the construction and teardown sequences for
//! each isolation mode, the idempotence guard around teardown, the
//! per-unit-of-work nesting discipline, and - over an explicit model of the
//! database state - the isolation and round-trip guarantees those sequences
//! provide.

pub mod adapter;
pub mod bridge;
pub mod directive;
pub mod laws;
pub mod model;
pub mod plan;
pub mod session;

use vstd::prelude::*;

verus! {

/// The ways a session can fail.
#[derive(Clone, Copy, PartialEq, Eq, Structural, Debug)]
pub enum SessionError {
    /// Construction failed: the directive set is malformed, or an up
    /// directive failed against the database.
    MigrationFailed,
    /// An explicitly requested teardown step failed.
    TeardownFailed,
    /// An opaque failure bubbled up from the underlying driver.
    DriverError,
    /// A handle was used after the session was consumed by teardown.
    UseAfterTeardown,
}

} // verus!
