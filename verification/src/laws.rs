//! The lifecycle guarantees, proved over the model: what construction leaves
//! behind, that teardown restores the pre-session state, the order reverts
//! run in, and the isolation the outer transaction provides.

use vstd::prelude::*;

use crate::directive::{strictly_ascending, strictly_descending, up_ordinals_of, Directive, Mode};
use crate::model::{
    lemma_run_steps_app, outside_view, run_steps, step, top_of, with_top, Action, ConnModel,
    StateModel,
};
use crate::plan::{
    apply_actions, construction_actions, failure_actions, partial_construction_actions,
    prefix_actions, revert_actions, teardown_actions, undo_actions,
};

verus! {

pub proof fn lemma_with_top_basics(c: ConnModel, s: StateModel)
    ensures
        top_of(with_top(c, s)) == s,
        with_top(c, s).frames.len() == c.frames.len(),
        c.frames.len() > 0 ==> with_top(c, s).committed == c.committed,
        c.frames.len() == 0 ==> with_top(c, s).committed == s,
        with_top(c, top_of(c)) == c,
{
    if c.frames.len() == 0 {
        assert(with_top(c, top_of(c)) =~~= c);
    } else {
        assert(c.frames.update(c.frames.len() - 1, s).last() == s);
        assert(c.frames.update(c.frames.len() - 1, top_of(c)) =~= c.frames);
        assert(with_top(c, top_of(c)) =~~= c);
    }
}

pub proof fn lemma_with_top_twice(c: ConnModel, s1: StateModel, s2: StateModel)
    ensures
        with_top(with_top(c, s1), s2) == with_top(c, s2),
{
    if c.frames.len() == 0 {
        assert(with_top(with_top(c, s1), s2) =~~= with_top(c, s2));
    } else {
        let n = c.frames.len();
        assert(c.frames.update(n - 1, s1).update(n - 1, s2) =~= c.frames.update(n - 1, s2));
        assert(with_top(with_top(c, s1), s2) =~~= with_top(c, s2));
    }
}

/// Applying the ordinals `os`, in order, appends them to the tables and to
/// the bookkeeping record of the active context, and touches nothing else.
pub proof fn lemma_apply_actions_effect(c: ConnModel, os: Seq<u64>)
    ensures
        run_steps(c, apply_actions(os)) == with_top(
            c,
            StateModel {
                tables: top_of(c).tables + os,
                applied: top_of(c).applied + os,
                rows: top_of(c).rows,
                has_bookkeeping: top_of(c).has_bookkeeping,
            },
        ),
    decreases os.len(),
{
    let t = top_of(c);
    if os.len() == 0 {
        assert(apply_actions(os) =~= Seq::<Action>::empty());
        assert(t.tables + os =~= t.tables);
        assert(t.applied + os =~= t.applied);
        lemma_with_top_basics(c, t);
        assert(StateModel {
            tables: t.tables + os,
            applied: t.applied + os,
            rows: t.rows,
            has_bookkeeping: t.has_bookkeeping,
        } =~= t);
    } else {
        let t1 = StateModel {
            tables: t.tables.push(os[0]),
            applied: t.applied.push(os[0]),
            rows: t.rows,
            has_bookkeeping: t.has_bookkeeping,
        };
        let c1 = with_top(c, t1);
        assert(apply_actions(os)[0] == Action::Apply(os[0]));
        assert(apply_actions(os).drop_first() =~= apply_actions(os.drop_first()));
        assert(step(c, Action::Apply(os[0])) == c1);
        lemma_with_top_basics(c, t1);
        lemma_apply_actions_effect(c1, os.drop_first());
        let s2 = StateModel {
            tables: t1.tables + os.drop_first(),
            applied: t1.applied + os.drop_first(),
            rows: t1.rows,
            has_bookkeeping: t1.has_bookkeeping,
        };
        lemma_with_top_twice(c, t1, s2);
        assert(t.tables.push(os[0]) + os.drop_first() =~= t.tables + os);
        assert(t.applied.push(os[0]) + os.drop_first() =~= t.applied + os);
        assert(s2 =~= StateModel {
            tables: t.tables + os,
            applied: t.applied + os,
            rows: t.rows,
            has_bookkeeping: t.has_bookkeeping,
        });
    }
}

/// What a successful construction leaves behind, on a connection with no
/// transaction open: the active context holds exactly the pre-existing tables
/// followed by the up ordinals in their ascending order - no more, no less -
/// the same ordinals appended to the bookkeeping record, the bookkeeping
/// table present, and the rows untouched. In `TransactionWrapped` mode all
/// of it sits in the one outer transaction frame and the committed state is
/// untouched; in `MigrationRollback` mode it is the committed state.
pub proof fn lemma_construction_effect(c: ConnModel, mode: Mode, steps: Seq<Directive>)
    requires
        c.frames.len() == 0,
    ensures
        ({
            let after = run_steps(c, construction_actions(mode, steps));
            let target = StateModel {
                tables: c.committed.tables + up_ordinals_of(steps),
                applied: c.committed.applied + up_ordinals_of(steps),
                rows: c.committed.rows,
                has_bookkeeping: true,
            };
            match mode {
                Mode::TransactionWrapped => after == ConnModel {
                    committed: c.committed,
                    frames: seq![target],
                },
                Mode::MigrationRollback => after == ConnModel {
                    committed: target,
                    frames: Seq::<StateModel>::empty(),
                },
            }
        }),
{
    let ups = up_ordinals_of(steps);
    let pre = prefix_actions(mode);
    assert(construction_actions(mode, steps) =~= pre + apply_actions(ups));
    lemma_run_steps_app(c, pre, apply_actions(ups));
    let cp = run_steps(c, pre);
    match mode {
        Mode::TransactionWrapped => {
            let cb = step(c, Action::Begin);
            let ce = step(cb, Action::EnsureBookkeeping);
            assert(pre[0] == Action::Begin);
            assert(pre.drop_first() =~= seq![Action::EnsureBookkeeping]);
            assert(seq![Action::EnsureBookkeeping].drop_first() =~= Seq::<Action>::empty());
            assert(run_steps(ce, Seq::<Action>::empty()) == ce);
            assert(cp == run_steps(cb, seq![Action::EnsureBookkeeping]));
            assert(seq![Action::EnsureBookkeeping][0] == Action::EnsureBookkeeping);
            assert(run_steps(cb, seq![Action::EnsureBookkeeping]) == run_steps(
                ce,
                seq![Action::EnsureBookkeeping].drop_first(),
            ));
            assert(cp == ce);
            assert(cb.frames =~= seq![c.committed]);
            lemma_with_top_basics(cb, top_of(ce));
            assert(ce.frames =~= seq![
                StateModel {
                    tables: c.committed.tables,
                    applied: c.committed.applied,
                    rows: c.committed.rows,
                    has_bookkeeping: true,
                },
            ]);
            assert(ce.committed == c.committed);
            lemma_apply_actions_effect(ce, ups);
            assert(run_steps(c, construction_actions(mode, steps)) =~~= ConnModel {
                committed: c.committed,
                frames: seq![
                    StateModel {
                        tables: c.committed.tables + ups,
                        applied: c.committed.applied + ups,
                        rows: c.committed.rows,
                        has_bookkeeping: true,
                    },
                ],
            });
        },
        Mode::MigrationRollback => {
            let ce = step(c, Action::EnsureBookkeeping);
            assert(pre[0] == Action::EnsureBookkeeping);
            assert(pre.drop_first() =~= Seq::<Action>::empty());
            assert(run_steps(ce, Seq::<Action>::empty()) == ce);
            assert(cp == ce);
            assert(ce.frames.len() == 0);
            lemma_apply_actions_effect(ce, ups);
            assert(run_steps(c, construction_actions(mode, steps)) =~~= ConnModel {
                committed: StateModel {
                    tables: c.committed.tables + ups,
                    applied: c.committed.applied + ups,
                    rows: c.committed.rows,
                    has_bookkeeping: true,
                },
                frames: Seq::<StateModel>::empty(),
            });
        },
    }
}

proof fn lemma_run_one(c: ConnModel, a: Action)
    ensures
        run_steps(c, seq![a]) == step(c, a),
{
    assert(seq![a][0] == a);
    assert(seq![a].drop_first() =~= Seq::<Action>::empty());
    assert(run_steps(step(c, a), Seq::<Action>::empty()) == step(c, a));
}

proof fn lemma_run_two(c: ConnModel, a1: Action, a2: Action)
    ensures
        run_steps(c, seq![a1, a2]) == step(step(c, a1), a2),
{
    assert(seq![a1, a2][0] == a1);
    assert(seq![a1, a2].drop_first() =~= seq![a2]);
    lemma_run_one(step(c, a1), a2);
    assert(run_steps(c, seq![a1, a2]) == run_steps(step(c, a1), seq![a1, a2].drop_first()));
}

/// Reverting the ordinals `os` in reverse order pops exactly them off the
/// tables and the bookkeeping record of the active context, when the context
/// ends with them.
pub proof fn lemma_revert_actions_effect(c: ConnModel, os: Seq<u64>)
    requires
        top_of(c).tables.len() >= os.len(),
        top_of(c).applied.len() >= os.len(),
        top_of(c).tables.skip(top_of(c).tables.len() - os.len()) == os,
        top_of(c).applied.skip(top_of(c).applied.len() - os.len()) == os,
    ensures
        run_steps(c, revert_actions(os.reverse())) == with_top(
            c,
            StateModel {
                tables: top_of(c).tables.take(top_of(c).tables.len() - os.len()),
                applied: top_of(c).applied.take(top_of(c).applied.len() - os.len()),
                rows: top_of(c).rows,
                has_bookkeeping: top_of(c).has_bookkeeping,
            },
        ),
    decreases os.len(),
{
    let t = top_of(c);
    let n = t.tables.len();
    let an = t.applied.len();
    let m = os.len();
    if m == 0 {
        assert(os.reverse() =~= Seq::<u64>::empty());
        assert(revert_actions(os.reverse()) =~= Seq::<Action>::empty());
        assert(t.tables.take(n as int) =~= t.tables);
        assert(t.applied.take(an as int) =~= t.applied);
        lemma_with_top_basics(c, t);
        assert(StateModel {
            tables: t.tables.take(n as int),
            applied: t.applied.take(an as int),
            rows: t.rows,
            has_bookkeeping: t.has_bookkeeping,
        } =~= t);
    } else {
        assert(os[m - 1] == t.tables.skip(n - m)[m - 1]);
        assert(t.tables.last() == os[m - 1]);
        assert(os[m - 1] == t.applied.skip(an - m)[m - 1]);
        assert(t.applied.last() == os[m - 1]);
        let o0 = os[m - 1];
        assert(os.reverse()[0] == o0);
        assert(revert_actions(os.reverse())[0] == Action::Revert(o0));
        let t1 = StateModel {
            tables: t.tables.drop_last(),
            applied: t.applied.drop_last(),
            rows: t.rows,
            has_bookkeeping: t.has_bookkeeping,
        };
        let c1 = with_top(c, t1);
        assert(step(c, Action::Revert(o0)) == c1);
        assert(os.reverse().drop_first() =~= os.drop_last().reverse());
        assert(revert_actions(os.reverse()).drop_first() =~= revert_actions(
            os.drop_last().reverse(),
        ));
        assert(run_steps(c, revert_actions(os.reverse())) == run_steps(
            c1,
            revert_actions(os.drop_last().reverse()),
        ));
        lemma_with_top_basics(c, t1);
        assert(t1.tables.skip(t1.tables.len() - (m - 1)) =~= os.drop_last());
        assert(t1.applied.skip(t1.applied.len() - (m - 1)) =~= os.drop_last());
        lemma_revert_actions_effect(c1, os.drop_last());
        let s2 = StateModel {
            tables: t1.tables.take(t1.tables.len() - (m - 1)),
            applied: t1.applied.take(t1.applied.len() - (m - 1)),
            rows: t1.rows,
            has_bookkeeping: t1.has_bookkeeping,
        };
        lemma_with_top_twice(c, t1, s2);
        assert(t1.tables.take(t1.tables.len() - (m - 1)) =~= t.tables.take(n - m));
        assert(t1.applied.take(t1.applied.len() - (m - 1)) =~= t.applied.take(an - m));
        assert(s2 =~= StateModel {
            tables: t.tables.take(n - m),
            applied: t.applied.take(an - m),
            rows: t.rows,
            has_bookkeeping: t.has_bookkeeping,
        });
    }
}

/// Building a schema (prefix, then the up ordinals `os` in order) and then
/// undoing it restores the connection exactly, in either mode. In
/// `MigrationRollback` mode the pre-existing state must carry no bookkeeping,
/// since teardown drops the bookkeeping table rather than restoring its old
/// contents.
pub proof fn lemma_construct_then_undo(c: ConnModel, mode: Mode, os: Seq<u64>)
    requires
        c.frames.len() == 0,
        mode is MigrationRollback ==> c.committed.applied == Seq::<u64>::empty(),
        mode is MigrationRollback ==> !c.committed.has_bookkeeping,
    ensures
        run_steps(
            run_steps(c, prefix_actions(mode) + apply_actions(os)),
            undo_actions(mode, os),
        ) == c,
{
    lemma_build_effect(c, mode, os);
    let built = run_steps(c, prefix_actions(mode) + apply_actions(os));
    let target = StateModel {
        tables: c.committed.tables + os,
        applied: c.committed.applied + os,
        rows: c.committed.rows,
        has_bookkeeping: true,
    };
    match mode {
        Mode::TransactionWrapped => {
            lemma_run_two(built, Action::Rollback, Action::Close);
            assert(built.frames.drop_last() =~= Seq::<StateModel>::empty());
            assert(step(built, Action::Rollback) =~~= c);
        },
        Mode::MigrationRollback => {
            assert(undo_actions(mode, os) =~= revert_actions(os.reverse()) + seq![
                Action::DropBookkeeping,
                Action::Close,
            ]);
            lemma_run_steps_app(
                built,
                revert_actions(os.reverse()),
                seq![Action::DropBookkeeping, Action::Close],
            );
            let m = os.len();
            assert(top_of(built) == target);
            assert(target.applied =~= os);
            assert(target.tables.skip(target.tables.len() - m) =~= os);
            assert(target.applied.skip(target.applied.len() - m) =~= os);
            lemma_revert_actions_effect(built, os);
            let reverted = run_steps(built, revert_actions(os.reverse()));
            assert(reverted == with_top(
                built,
                StateModel {
                    tables: target.tables.take(target.tables.len() - m),
                    applied: target.applied.take(target.applied.len() - m),
                    rows: target.rows,
                    has_bookkeeping: target.has_bookkeeping,
                },
            ));
            assert(target.tables.take(target.tables.len() - m) =~= c.committed.tables);
            assert(target.applied.take(target.applied.len() - m) =~= Seq::<u64>::empty());
            lemma_run_two(reverted, Action::DropBookkeeping, Action::Close);
            assert(step(reverted, Action::DropBookkeeping) =~~= c);
        },
    }
}

proof fn lemma_build_effect(c: ConnModel, mode: Mode, os: Seq<u64>)
    requires
        c.frames.len() == 0,
    ensures
        ({
            let target = StateModel {
                tables: c.committed.tables + os,
                applied: c.committed.applied + os,
                rows: c.committed.rows,
                has_bookkeeping: true,
            };
            match mode {
                Mode::TransactionWrapped => run_steps(
                    c,
                    prefix_actions(mode) + apply_actions(os),
                ) == ConnModel { committed: c.committed, frames: seq![target] },
                Mode::MigrationRollback => run_steps(
                    c,
                    prefix_actions(mode) + apply_actions(os),
                ) == ConnModel { committed: target, frames: Seq::<StateModel>::empty() },
            }
        }),
{
    let pre = prefix_actions(mode);
    lemma_run_steps_app(c, pre, apply_actions(os));
    match mode {
        Mode::TransactionWrapped => {
            lemma_run_two(c, Action::Begin, Action::EnsureBookkeeping);
            assert(pre =~= seq![Action::Begin, Action::EnsureBookkeeping]);
            let cb = step(c, Action::Begin);
            let ce = step(cb, Action::EnsureBookkeeping);
            assert(run_steps(c, pre) == ce);
            assert(cb.frames =~= seq![c.committed]);
            lemma_with_top_basics(cb, top_of(ce));
            assert(ce.frames =~= seq![
                StateModel {
                    tables: c.committed.tables,
                    applied: c.committed.applied,
                    rows: c.committed.rows,
                    has_bookkeeping: true,
                },
            ]);
            lemma_apply_actions_effect(ce, os);
            assert(run_steps(c, pre + apply_actions(os)) =~~= ConnModel {
                committed: c.committed,
                frames: seq![
                    StateModel {
                        tables: c.committed.tables + os,
                        applied: c.committed.applied + os,
                        rows: c.committed.rows,
                        has_bookkeeping: true,
                    },
                ],
            });
        },
        Mode::MigrationRollback => {
            lemma_run_one(c, Action::EnsureBookkeeping);
            assert(pre =~= seq![Action::EnsureBookkeeping]);
            let ce = step(c, Action::EnsureBookkeeping);
            assert(run_steps(c, pre) == ce);
            assert(ce.frames.len() == 0);
            lemma_apply_actions_effect(ce, os);
            assert(run_steps(c, pre + apply_actions(os)) =~~= ConnModel {
                committed: StateModel {
                    tables: c.committed.tables + os,
                    applied: c.committed.applied + os,
                    rows: c.committed.rows,
                    has_bookkeeping: true,
                },
                frames: Seq::<StateModel>::empty(),
            });
        },
    }
}

/// Round trip: whatever the mode, running construction and then teardown on
/// a connection with no open transaction restores the connection's state
/// exactly as it was before the session - schema, bookkeeping, and rows.
pub proof fn lemma_teardown_round_trip(c: ConnModel, mode: Mode, steps: Seq<Directive>)
    requires
        c.frames.len() == 0,
        mode is MigrationRollback ==> c.committed.applied == Seq::<u64>::empty(),
        mode is MigrationRollback ==> !c.committed.has_bookkeeping,
    ensures
        run_steps(
            run_steps(c, construction_actions(mode, steps)),
            teardown_actions(mode, steps),
        ) == c,
{
    let ups = up_ordinals_of(steps);
    assert(construction_actions(mode, steps) =~= prefix_actions(mode) + apply_actions(ups));
    assert(teardown_actions(mode, steps) =~= undo_actions(mode, ups));
    lemma_construct_then_undo(c, mode, ups);
}

/// A construction that failed after `applied_count` up directives, followed
/// by its cleanup plan, also restores the connection exactly: no tables left
/// behind, no bookkeeping, no leaked transaction.
pub proof fn lemma_aborted_construction_clean(
    c: ConnModel,
    mode: Mode,
    steps: Seq<Directive>,
    applied_count: int,
)
    requires
        c.frames.len() == 0,
        0 <= applied_count <= up_ordinals_of(steps).len(),
        mode is MigrationRollback ==> c.committed.applied == Seq::<u64>::empty(),
        mode is MigrationRollback ==> !c.committed.has_bookkeeping,
    ensures
        run_steps(
            run_steps(c, partial_construction_actions(mode, steps, applied_count)),
            failure_actions(mode, steps, applied_count),
        ) == c,
{
    let done = up_ordinals_of(steps).take(applied_count);
    assert(partial_construction_actions(mode, steps, applied_count) =~= prefix_actions(mode)
        + apply_actions(done));
    assert(failure_actions(mode, steps, applied_count) =~= undo_actions(mode, done));
    lemma_construct_then_undo(c, mode, done);
}

/// `MigrationRollback` teardown runs its reverts in strictly descending
/// ordinal order - the mirror of construction's ascending order - and leaves
/// the bookkeeping table dropped.
pub proof fn lemma_migration_rollback_teardown_order(c: ConnModel, steps: Seq<Directive>)
    requires
        strictly_ascending(up_ordinals_of(steps)),
        c.frames.len() == 0,
    ensures
        teardown_actions(Mode::MigrationRollback, steps) == revert_actions(
            up_ordinals_of(steps).reverse(),
        ) + seq![Action::DropBookkeeping, Action::Close],
        strictly_descending(up_ordinals_of(steps).reverse()),
        !run_steps(c, teardown_actions(Mode::MigrationRollback, steps)).committed.has_bookkeeping,
{
    let ups = up_ordinals_of(steps);
    let n = ups.len();
    if n > 0 {
        assert forall|i: int, j: int|
            0 <= i < j < ups.reverse().len() implies ups.reverse()[i] > ups.reverse()[j] by {
            assert(ups.reverse()[i] == ups[n - 1 - i]);
            assert(ups.reverse()[j] == ups[n - 1 - j]);
            assert(ups[n - 1 - j] < ups[n - 1 - i]);
        }
    }
    lemma_reverts_preserve_flags(c, ups.reverse());
    let reverted = run_steps(c, revert_actions(ups.reverse()));
    lemma_run_steps_app(
        c,
        revert_actions(ups.reverse()),
        seq![Action::DropBookkeeping, Action::Close],
    );
    lemma_run_two(reverted, Action::DropBookkeeping, Action::Close);
    assert(reverted.frames.len() == 0);
    assert(teardown_actions(Mode::MigrationRollback, steps) =~= revert_actions(ups.reverse())
        + seq![Action::DropBookkeeping, Action::Close]);
}

proof fn lemma_reverts_preserve_flags(c: ConnModel, os: Seq<u64>)
    ensures
        run_steps(c, revert_actions(os)).frames.len() == c.frames.len(),
        top_of(run_steps(c, revert_actions(os))).has_bookkeeping == top_of(c).has_bookkeeping,
    decreases os.len(),
{
    if os.len() == 0 {
        assert(revert_actions(os) =~= Seq::<Action>::empty());
    } else {
        assert(revert_actions(os)[0] == Action::Revert(os[0]));
        assert(revert_actions(os).drop_first() =~= revert_actions(os.drop_first()));
        let c1 = step(c, Action::Revert(os[0]));
        let t = top_of(c);
        if t.tables.len() > 0 && t.tables.last() == os[0] && t.applied.len() > 0
            && t.applied.last() == os[0] {
            let t1 = StateModel {
                tables: t.tables.drop_last(),
                applied: t.applied.drop_last(),
                rows: t.rows,
                has_bookkeeping: t.has_bookkeeping,
            };
            lemma_with_top_basics(c, t1);
        }
        assert(c1.frames.len() == c.frames.len());
        assert(top_of(c1).has_bookkeeping == top_of(c).has_bookkeeping);
        lemma_reverts_preserve_flags(c1, os.drop_first());
        assert(run_steps(c, revert_actions(os)) == run_steps(
            c1,
            revert_actions(os.drop_first()),
        ));
    }
}

/// A sequence of handle actions that never commits or rolls back the
/// session's own outer transaction: nested transactions may open, commit, or
/// roll back freely, but `Commit` and `Rollback` only ever target a nested
/// frame.
pub open spec fn keeps_outer_open(c: ConnModel, u: Seq<Action>) -> bool
    decreases u.len(),
{
    u.len() == 0 || ({
        let ok0 = match u[0] {
            Action::Commit => c.frames.len() >= 2,
            Action::Rollback => c.frames.len() >= 2,
            _ => true,
        };
        ok0 && keeps_outer_open(step(c, u[0]), u.drop_first())
    })
}

proof fn lemma_guarded_actions_preserve_committed(c: ConnModel, u: Seq<Action>)
    requires
        c.frames.len() >= 1,
        keeps_outer_open(c, u),
    ensures
        run_steps(c, u).committed == c.committed,
        run_steps(c, u).frames.len() >= 1,
    decreases u.len(),
{
    if u.len() > 0 {
        let c1 = step(c, u[0]);
        assert(c1.committed == c.committed);
        assert(c1.frames.len() >= 1);
        lemma_guarded_actions_preserve_committed(c1, u.drop_first());
    }
}

/// `TransactionWrapped` isolation: construct a session, run any handle
/// actions that leave the outer transaction open - writes, nested
/// transactions, commits of nested transactions included - then tear down.
/// A separate connection sees exactly what it saw before the session: no
/// row and no schema change survives, even committed nested work.
pub proof fn lemma_transaction_wrapped_isolation(
    c: ConnModel,
    steps: Seq<Directive>,
    u: Seq<Action>,
)
    requires
        c.frames.len() == 0,
        keeps_outer_open(run_steps(c, construction_actions(Mode::TransactionWrapped, steps)), u),
    ensures
        outside_view(
            run_steps(
                run_steps(
                    run_steps(c, construction_actions(Mode::TransactionWrapped, steps)),
                    u,
                ),
                teardown_actions(Mode::TransactionWrapped, steps),
            ),
        ) == outside_view(c),
{
    lemma_construction_effect(c, Mode::TransactionWrapped, steps);
    let built = run_steps(c, construction_actions(Mode::TransactionWrapped, steps));
    assert(built.frames.len() == 1);
    lemma_guarded_actions_preserve_committed(built, u);
    let used = run_steps(built, u);
    assert(teardown_actions(Mode::TransactionWrapped, steps) =~= seq![
        Action::Rollback,
        Action::Close,
    ]);
    lemma_run_two(used, Action::Rollback, Action::Close);
}

} // verus!
