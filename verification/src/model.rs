//! A model of the database state a session acts on, and a verified in-memory
//! simulator of it.
//!
//! One physical connection is modelled as a committed state plus a stack of
//! open transaction frames; a separate connection sees only the committed
//! state. Schema effects follow a stack discipline: applying a migration
//! pushes its ordinal, reverting pops it, and a revert whose ordinal does not
//! name the most recently applied migration leaves the state unchanged. The
//! driver actions a session can ask for are the `Action` enum; `step` gives
//! each action's meaning and `run_steps` folds a whole plan.

use vstd::prelude::*;

verus! {

/// One driver operation a session plan can ask for. `Close` releases the
/// connection and has no effect on database state.
#[derive(Clone, Copy, PartialEq, Eq, Structural, Debug)]
pub enum Action {
    /// Open a transaction on top of the current context.
    Begin,
    /// Create the migration bookkeeping table if it does not exist.
    EnsureBookkeeping,
    /// Apply the up directive with this ordinal: create its table and record
    /// it in the bookkeeping table.
    Apply(u64),
    /// Run the down directive with this ordinal: drop its table and its
    /// bookkeeping record.
    Revert(u64),
    /// Write one row through the active handle.
    Write(u64),
    /// Commit the innermost open transaction into its parent context.
    Commit,
    /// Roll back the innermost open transaction, discarding it.
    Rollback,
    /// Drop the bookkeeping table and everything recorded in it.
    DropBookkeeping,
    /// Close the connection.
    Close,
}

/// The database state one context (committed, or one transaction frame) sees.
#[verifier::ext_equal]
pub struct StateModel {
    /// Ordinals of the tables the applied migrations created, oldest first.
    pub tables: Seq<u64>,
    /// Contents of the bookkeeping table: applied ordinals, oldest first.
    pub applied: Seq<u64>,
    /// Rows written by test logic, in write order.
    pub rows: Seq<u64>,
    /// Whether the bookkeeping table exists.
    pub has_bookkeeping: bool,
}

/// One physical connection: the committed state, and the stack of open
/// transaction frames, outermost first. Each frame holds the full state as
/// seen from inside that transaction.
#[verifier::ext_equal]
pub struct ConnModel {
    pub committed: StateModel,
    pub frames: Seq<StateModel>,
}

pub open spec fn empty_state() -> StateModel {
    StateModel {
        tables: Seq::empty(),
        applied: Seq::empty(),
        rows: Seq::empty(),
        has_bookkeeping: false,
    }
}

pub open spec fn empty_conn() -> ConnModel {
    ConnModel { committed: empty_state(), frames: Seq::empty() }
}

/// The state the active handle currently sees.
pub open spec fn top_of(c: ConnModel) -> StateModel {
    if c.frames.len() == 0 {
        c.committed
    } else {
        c.frames.last()
    }
}

/// Replace the state the active handle sees.
pub open spec fn with_top(c: ConnModel, s: StateModel) -> ConnModel {
    if c.frames.len() == 0 {
        ConnModel { committed: s, frames: c.frames }
    } else {
        ConnModel { committed: c.committed, frames: c.frames.update(c.frames.len() - 1, s) }
    }
}

/// What a separate, fresh connection observes.
pub open spec fn outside_view(c: ConnModel) -> StateModel {
    c.committed
}

/// The meaning of one action.
pub open spec fn step(c: ConnModel, a: Action) -> ConnModel {
    let t = top_of(c);
    match a {
        Action::Begin => ConnModel { committed: c.committed, frames: c.frames.push(t) },
        Action::EnsureBookkeeping => with_top(
            c,
            StateModel {
                tables: t.tables,
                applied: t.applied,
                rows: t.rows,
                has_bookkeeping: true,
            },
        ),
        Action::Apply(o) => with_top(
            c,
            StateModel {
                tables: t.tables.push(o),
                applied: t.applied.push(o),
                rows: t.rows,
                has_bookkeeping: t.has_bookkeeping,
            },
        ),
        Action::Revert(o) => {
            if t.tables.len() > 0 && t.tables.last() == o && t.applied.len() > 0
                && t.applied.last() == o {
                with_top(
                    c,
                    StateModel {
                        tables: t.tables.drop_last(),
                        applied: t.applied.drop_last(),
                        rows: t.rows,
                        has_bookkeeping: t.has_bookkeeping,
                    },
                )
            } else {
                c
            }
        },
        Action::Write(v) => with_top(
            c,
            StateModel {
                tables: t.tables,
                applied: t.applied,
                rows: t.rows.push(v),
                has_bookkeeping: t.has_bookkeeping,
            },
        ),
        Action::Commit => {
            if c.frames.len() == 0 {
                c
            } else if c.frames.len() == 1 {
                ConnModel { committed: c.frames[0], frames: Seq::empty() }
            } else {
                ConnModel {
                    committed: c.committed,
                    frames: c.frames.drop_last().update(c.frames.len() - 2, c.frames.last()),
                }
            }
        },
        Action::Rollback => {
            if c.frames.len() == 0 {
                c
            } else {
                ConnModel { committed: c.committed, frames: c.frames.drop_last() }
            }
        },
        Action::DropBookkeeping => with_top(
            c,
            StateModel {
                tables: t.tables,
                applied: Seq::empty(),
                rows: t.rows,
                has_bookkeeping: false,
            },
        ),
        Action::Close => c,
    }
}

/// The meaning of a whole plan, first action first.
pub open spec fn run_steps(c: ConnModel, plan: Seq<Action>) -> ConnModel
    decreases plan.len(),
{
    if plan.len() == 0 {
        c
    } else {
        run_steps(step(c, plan[0]), plan.drop_first())
    }
}

pub proof fn lemma_run_steps_snoc(c: ConnModel, plan: Seq<Action>, a: Action)
    ensures
        run_steps(c, plan.push(a)) == step(run_steps(c, plan), a),
    decreases plan.len(),
{
    if plan.len() == 0 {
        assert(plan.push(a)[0] == a);
        assert(plan.push(a).drop_first() =~= Seq::<Action>::empty());
        assert(run_steps(step(c, a), Seq::<Action>::empty()) == step(c, a));
    } else {
        assert(plan.push(a)[0] == plan[0]);
        assert(plan.push(a).drop_first() =~= plan.drop_first().push(a));
        lemma_run_steps_snoc(step(c, plan[0]), plan.drop_first(), a);
    }
}

pub proof fn lemma_run_steps_app(c: ConnModel, p: Seq<Action>, q: Seq<Action>)
    ensures
        run_steps(c, p + q) == run_steps(run_steps(c, p), q),
    decreases p.len(),
{
    if p.len() == 0 {
        assert(p + q =~= q);
    } else {
        assert((p + q)[0] == p[0]);
        assert((p + q).drop_first() =~= p.drop_first() + q);
        lemma_run_steps_app(step(c, p[0]), p.drop_first(), q);
    }
}

/// Executable counterpart of `StateModel`.
pub struct DbState {
    pub tables: Vec<u64>,
    pub applied: Vec<u64>,
    pub rows: Vec<u64>,
    pub has_bookkeeping: bool,
}

impl View for DbState {
    type V = StateModel;

    open spec fn view(&self) -> StateModel {
        StateModel {
            tables: self.tables@,
            applied: self.applied@,
            rows: self.rows@,
            has_bookkeeping: self.has_bookkeeping,
        }
    }
}

impl DbState {
    pub fn new() -> (r: DbState)
        ensures
            r@ == empty_state(),
    {
        let r = DbState { tables: Vec::new(), applied: Vec::new(), rows: Vec::new(), has_bookkeeping: false };
        proof {
            assert(r@ =~= empty_state());
        }
        r
    }
}

fn clone_values(v: &Vec<u64>) -> (r: Vec<u64>)
    ensures
        r@ == v@,
{
    let mut r: Vec<u64> = Vec::new();
    let mut i: usize = 0;
    while i < v.len()
        invariant
            0 <= i <= v@.len(),
            r@ == v@.take(i as int),
        decreases v@.len() - i,
    {
        r.push(v[i]);
        proof {
            assert(r@ =~= v@.take(i as int + 1));
        }
        i = i + 1;
    }
    proof {
        assert(v@.take(v@.len() as int) =~= v@);
    }
    r
}

fn snapshot(s: &DbState) -> (r: DbState)
    ensures
        r@ == s@,
{
    DbState {
        tables: clone_values(&s.tables),
        applied: clone_values(&s.applied),
        rows: clone_values(&s.rows),
        has_bookkeeping: s.has_bookkeeping,
    }
}

/// Executable counterpart of `ConnModel`: an in-memory stand-in for one
/// physical connection, precise enough to run whole session lifecycles
/// against in tests.
pub struct DbConn {
    pub committed: DbState,
    pub frames: Vec<DbState>,
}

impl View for DbConn {
    type V = ConnModel;

    open spec fn view(&self) -> ConnModel {
        ConnModel {
            committed: self.committed@,
            frames: self.frames@.map_values(|f: DbState| f@),
        }
    }
}

impl DbConn {
    pub fn new() -> (r: DbConn)
        ensures
            r@ == empty_conn(),
    {
        let r = DbConn { committed: DbState::new(), frames: Vec::new() };
        proof {
            assert(r@ =~~= empty_conn());
        }
        r
    }

    /// How many transactions are open on this connection.
    pub fn open_frames(&self) -> (n: usize)
        ensures
            n == self@.frames.len(),
    {
        self.frames.len()
    }

    /// Perform one driver action on the modelled connection.
    pub fn exec_action(&mut self, a: Action)
        ensures
            final(self)@ =~~= step(old(self)@, a),
    {
        match a {
            Action::Begin => {
                let snap = if self.frames.len() == 0 {
                    snapshot(&self.committed)
                } else {
                    let n = self.frames.len();
                    snapshot(&self.frames[n - 1])
                };
                self.frames.push(snap);
                proof {
                    assert(self@ =~~= step(old(self)@, a));
                }
            },
            Action::EnsureBookkeeping => {
                if self.frames.len() == 0 {
                    self.committed.has_bookkeeping = true;
                } else {
                    let mut f = self.frames.pop().unwrap();
                    f.has_bookkeeping = true;
                    self.frames.push(f);
                }
                proof {
                    assert(self@ =~~= step(old(self)@, a));
                }
            },
            Action::Apply(o) => {
                if self.frames.len() == 0 {
                    self.committed.tables.push(o);
                    self.committed.applied.push(o);
                } else {
                    let mut f = self.frames.pop().unwrap();
                    f.tables.push(o);
                    f.applied.push(o);
                    self.frames.push(f);
                }
                proof {
                    assert(self@ =~~= step(old(self)@, a));
                }
            },
            Action::Revert(o) => {
                if self.frames.len() == 0 {
                    if self.committed.tables.len() > 0 && self.committed.applied.len() > 0 {
                        let lt = self.committed.tables[self.committed.tables.len() - 1];
                        let la = self.committed.applied[self.committed.applied.len() - 1];
                        if lt == o && la == o {
                            let _ = self.committed.tables.pop();
                            let _ = self.committed.applied.pop();
                        }
                    }
                } else {
                    let mut f = self.frames.pop().unwrap();
                    if f.tables.len() > 0 && f.applied.len() > 0 {
                        let lt = f.tables[f.tables.len() - 1];
                        let la = f.applied[f.applied.len() - 1];
                        if lt == o && la == o {
                            let _ = f.tables.pop();
                            let _ = f.applied.pop();
                        }
                    }
                    self.frames.push(f);
                }
                proof {
                    assert(self@ =~~= step(old(self)@, a));
                }
            },
            Action::Write(v) => {
                if self.frames.len() == 0 {
                    self.committed.rows.push(v);
                } else {
                    let mut f = self.frames.pop().unwrap();
                    f.rows.push(v);
                    self.frames.push(f);
                }
                proof {
                    assert(self@ =~~= step(old(self)@, a));
                }
            },
            Action::Commit => {
                if self.frames.len() == 1 {
                    let f = self.frames.pop().unwrap();
                    self.committed = f;
                } else if self.frames.len() >= 2 {
                    let f = self.frames.pop().unwrap();
                    let _ = self.frames.pop();
                    self.frames.push(f);
                }
                proof {
                    assert(self@ =~~= step(old(self)@, a));
                }
            },
            Action::Rollback => {
                if self.frames.len() > 0 {
                    let _ = self.frames.pop();
                }
                proof {
                    assert(self@ =~~= step(old(self)@, a));
                }
            },
            Action::DropBookkeeping => {
                if self.frames.len() == 0 {
                    self.committed.applied = Vec::new();
                    self.committed.has_bookkeeping = false;
                } else {
                    let mut f = self.frames.pop().unwrap();
                    f.applied = Vec::new();
                    f.has_bookkeeping = false;
                    self.frames.push(f);
                }
                proof {
                    assert(self@ =~~= step(old(self)@, a));
                }
            },
            Action::Close => {
                proof {
                    assert(self@ =~~= step(old(self)@, a));
                }
            },
        }
    }

    /// Run a whole plan, first action first.
    pub fn run_plan(&mut self, plan: &Vec<Action>)
        ensures
            final(self)@ =~~= run_steps(old(self)@, plan@),
    {
        let mut i: usize = 0;
        while i < plan.len()
            invariant
                0 <= i <= plan@.len(),
                self@ == run_steps(old(self)@, plan@.take(i as int)),
            decreases plan@.len() - i,
        {
            proof {
                lemma_run_steps_snoc(old(self)@, plan@.take(i as int), plan@[i as int]);
                assert(plan@.take(i as int + 1) =~= plan@.take(i as int).push(plan@[i as int]));
            }
            self.exec_action(plan[i]);
            i = i + 1;
        }
        proof {
            assert(plan@.take(plan@.len() as int) =~= plan@);
        }
    }
}

} // verus!
