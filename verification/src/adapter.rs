//! The per-request transaction adapter.
//!
//! Built over a session in `TransactionWrapped` mode and shared across
//! concurrent units of work (one incoming request each). The host framework
//! may schedule the units concurrently; the holder serializes them with an
//! exclusive-access guard around the one physical connection, so the adapter
//! sees them one after another, each with its own nested transaction: opened
//! before the unit runs, committed into the outer transaction when the unit
//! succeeds, discarded when it fails. At most one nested transaction is open
//! at any instant.

use vstd::prelude::*;

use crate::directive::Mode;
use crate::model::{Action, DbConn, StateModel};
use crate::session::Session;

verus! {

/// One unit of work, as the adapter sees it once the outside framework has
/// run it: the rows it wrote through its request-scoped handle, and whether
/// it finished without error.
pub struct UnitOfWork {
    pub writes: Vec<u64>,
    pub succeeds: bool,
}

/// The rows the successful units write, in unit order: each successful
/// unit's writes stay contiguous, failed units contribute nothing.
pub open spec fn committed_writes(units: Seq<UnitOfWork>) -> Seq<u64>
    decreases units.len(),
{
    if units.len() == 0 {
        Seq::empty()
    } else if units[0].succeeds {
        units[0].writes@ + committed_writes(units.drop_first())
    } else {
        committed_writes(units.drop_first())
    }
}

/// How many units succeed.
pub open spec fn success_count(units: Seq<UnitOfWork>) -> nat
    decreases units.len(),
{
    if units.len() == 0 {
        0
    } else if units[0].succeeds {
        1 + success_count(units.drop_first())
    } else {
        success_count(units.drop_first())
    }
}

pub proof fn lemma_committed_writes_snoc(units: Seq<UnitOfWork>, u: UnitOfWork)
    ensures
        committed_writes(units.push(u)) == committed_writes(units) + (if u.succeeds {
            u.writes@
        } else {
            Seq::<u64>::empty()
        }),
        success_count(units.push(u)) == success_count(units) + (if u.succeeds {
            1nat
        } else {
            0nat
        }),
    decreases units.len(),
{
    if units.len() == 0 {
        assert(units.push(u)[0] == u);
        assert(units.push(u).drop_first() =~= Seq::<UnitOfWork>::empty());
        assert(committed_writes(Seq::<UnitOfWork>::empty()) == Seq::<u64>::empty());
        assert(success_count(Seq::<UnitOfWork>::empty()) == 0);
        if u.succeeds {
            assert(committed_writes(units.push(u)) =~= u.writes@ + Seq::<u64>::empty());
            assert(committed_writes(units) + u.writes@ =~= u.writes@ + Seq::<u64>::empty());
        } else {
            assert(committed_writes(units) + Seq::<u64>::empty() =~= Seq::<u64>::empty());
        }
    } else {
        assert(units.push(u)[0] == units[0]);
        assert(units.push(u).drop_first() =~= units.drop_first().push(u));
        lemma_committed_writes_snoc(units.drop_first(), u);
        if units[0].succeeds {
            if u.succeeds {
                assert(units[0].writes@ + (committed_writes(units.drop_first()) + u.writes@)
                    =~= (units[0].writes@ + committed_writes(units.drop_first())) + u.writes@);
            } else {
                assert(units[0].writes@ + (committed_writes(units.drop_first())
                    + Seq::<u64>::empty()) =~= (units[0].writes@ + committed_writes(
                    units.drop_first(),
                )) + Seq::<u64>::empty());
            }
        }
    }
}

/// The adapter: holds the session for its whole lifetime (standing for the
/// exclusive guard the holder wraps it in) and runs each unit of work in its
/// own nested transaction on the session's outer transaction.
pub struct PerRequestTransactionAdapter {
    session: Session,
}

impl PerRequestTransactionAdapter {
    /// The session the adapter was built over.
    pub closed spec fn session_spec(&self) -> Session {
        self.session
    }

    /// The adapter is only meaningful over a live session in
    /// `TransactionWrapped` mode.
    pub open spec fn wf(&self) -> bool {
        &&& self.session_spec().mode_spec() is TransactionWrapped
        &&& !self.session_spec().is_consumed()
    }

    /// Take over a live `TransactionWrapped` session.
    pub fn new(session: Session) -> (r: Self)
        requires
            session.mode_spec() is TransactionWrapped,
            !session.is_consumed(),
        ensures
            r.wf(),
            r.session_spec() == session,
    {
        PerRequestTransactionAdapter { session }
    }

    /// Hand the session back, for teardown by its owner.
    pub fn into_session(self) -> (s: Session)
        ensures
            s == self.session_spec(),
    {
        self.session
    }

    /// Run one unit of work under exclusive access to the connection: open a
    /// nested transaction, perform the unit's writes in it, then commit it
    /// into the outer transaction if the unit succeeded and discard it
    /// otherwise. Returns the unit's own outcome unchanged.
    pub fn run_unit_of_work(&self, conn: &mut DbConn, unit: &UnitOfWork) -> (ok: bool)
        requires
            self.wf(),
            old(conn)@.frames.len() == 1,
        ensures
            ok == unit.succeeds,
            final(conn)@.frames.len() == 1,
            final(conn)@.committed == old(conn)@.committed,
            unit.succeeds ==> final(conn)@.frames[0] == (StateModel {
                tables: old(conn)@.frames[0].tables,
                applied: old(conn)@.frames[0].applied,
                rows: old(conn)@.frames[0].rows + unit.writes@,
                has_bookkeeping: old(conn)@.frames[0].has_bookkeeping,
            }),
            !unit.succeeds ==> final(conn)@.frames[0] == old(conn)@.frames[0],
    {
        conn.exec_action(Action::Begin);
        proof {
            assert(old(conn)@.frames[0].rows + unit.writes@.take(0) =~= old(
                conn,
            )@.frames[0].rows);
            assert(conn@.frames[1] =~= StateModel {
                tables: old(conn)@.frames[0].tables,
                applied: old(conn)@.frames[0].applied,
                rows: old(conn)@.frames[0].rows + unit.writes@.take(0),
                has_bookkeeping: old(conn)@.frames[0].has_bookkeeping,
            });
        }
        let mut i: usize = 0;
        while i < unit.writes.len()
            invariant
                0 <= i <= unit.writes@.len(),
                conn@.frames.len() == 2,
                conn@.committed == old(conn)@.committed,
                conn@.frames[0] == old(conn)@.frames[0],
                conn@.frames[1] == (StateModel {
                    tables: old(conn)@.frames[0].tables,
                    applied: old(conn)@.frames[0].applied,
                    rows: old(conn)@.frames[0].rows + unit.writes@.take(i as int),
                    has_bookkeeping: old(conn)@.frames[0].has_bookkeeping,
                }),
            decreases unit.writes@.len() - i,
        {
            conn.exec_action(Action::Write(unit.writes[i]));
            proof {
                assert(unit.writes@.take(i as int + 1) =~= unit.writes@.take(i as int).push(
                    unit.writes@[i as int],
                ));
                assert(conn@.frames[1] =~= StateModel {
                    tables: old(conn)@.frames[0].tables,
                    applied: old(conn)@.frames[0].applied,
                    rows: old(conn)@.frames[0].rows + unit.writes@.take(i as int + 1),
                    has_bookkeeping: old(conn)@.frames[0].has_bookkeeping,
                });
            }
            i = i + 1;
        }
        proof {
            assert(unit.writes@.take(unit.writes@.len() as int) =~= unit.writes@);
        }
        if unit.succeeds {
            conn.exec_action(Action::Commit);
            proof {
                assert(conn@.frames.len() == 1);
            }
            true
        } else {
            conn.exec_action(Action::Rollback);
            proof {
                assert(conn@.frames[0] =~= old(conn)@.frames[0]);
            }
            false
        }
    }

    /// Run a batch of units of work in order, each in its own nested
    /// transaction. Exactly the successful units' writes land in the outer
    /// transaction, contiguous and in unit order; nothing reaches the
    /// committed state a separate connection sees.
    pub fn run_units(&self, conn: &mut DbConn, units: &Vec<UnitOfWork>) -> (succeeded: usize)
        requires
            self.wf(),
            old(conn)@.frames.len() == 1,
        ensures
            succeeded == success_count(units@),
            final(conn)@.frames.len() == 1,
            final(conn)@.committed == old(conn)@.committed,
            final(conn)@.frames[0] == (StateModel {
                tables: old(conn)@.frames[0].tables,
                applied: old(conn)@.frames[0].applied,
                rows: old(conn)@.frames[0].rows + committed_writes(units@),
                has_bookkeeping: old(conn)@.frames[0].has_bookkeeping,
            }),
    {
        let mut succeeded: usize = 0;
        let mut i: usize = 0;
        proof {
            assert(old(conn)@.frames[0].rows + committed_writes(units@.take(0)) =~= old(
                conn,
            )@.frames[0].rows);
            assert(conn@.frames[0] =~= StateModel {
                tables: old(conn)@.frames[0].tables,
                applied: old(conn)@.frames[0].applied,
                rows: old(conn)@.frames[0].rows + committed_writes(units@.take(0)),
                has_bookkeeping: old(conn)@.frames[0].has_bookkeeping,
            });
        }
        while i < units.len()
            invariant
                0 <= i <= units@.len(),
                self.wf(),
                succeeded == success_count(units@.take(i as int)),
                succeeded <= i,
                conn@.frames.len() == 1,
                conn@.committed == old(conn)@.committed,
                conn@.frames[0] == (StateModel {
                    tables: old(conn)@.frames[0].tables,
                    applied: old(conn)@.frames[0].applied,
                    rows: old(conn)@.frames[0].rows + committed_writes(units@.take(i as int)),
                    has_bookkeeping: old(conn)@.frames[0].has_bookkeeping,
                }),
            decreases units@.len() - i,
        {
            let ok = self.run_unit_of_work(conn, &units[i]);
            if ok {
                succeeded = succeeded + 1;
            }
            proof {
                lemma_committed_writes_snoc(units@.take(i as int), units@[i as int]);
                assert(units@.take(i as int + 1) =~= units@.take(i as int).push(
                    units@[i as int],
                ));
                if units@[i as int].succeeds {
                    assert((old(conn)@.frames[0].rows + committed_writes(units@.take(i as int)))
                        + units@[i as int].writes@ =~= old(conn)@.frames[0].rows
                        + committed_writes(units@.take(i as int + 1)));
                } else {
                    assert(old(conn)@.frames[0].rows + committed_writes(units@.take(i as int))
                        =~= old(conn)@.frames[0].rows + committed_writes(
                        units@.take(i as int + 1),
                    ));
                }
                assert(conn@.frames[0] =~= StateModel {
                    tables: old(conn)@.frames[0].tables,
                    applied: old(conn)@.frames[0].applied,
                    rows: old(conn)@.frames[0].rows + committed_writes(units@.take(i as int + 1)),
                    has_bookkeeping: old(conn)@.frames[0].has_bookkeeping,
                });
            }
            i = i + 1;
        }
        proof {
            assert(units@.take(units@.len() as int) =~= units@);
        }
        succeeded
    }
}

} // verus!
