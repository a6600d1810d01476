//! The driver plans a session follows: what construction, teardown, and
//! aborted construction must do, for each isolation mode, as exact action
//! sequences.

use vstd::prelude::*;

use crate::directive::{up_ordinals, up_ordinals_of, Directive, Mode};
use crate::model::Action;

verus! {

pub open spec fn apply_actions(ups: Seq<u64>) -> Seq<Action> {
    ups.map_values(|o: u64| Action::Apply(o))
}

pub open spec fn revert_actions(os: Seq<u64>) -> Seq<Action> {
    os.map_values(|o: u64| Action::Revert(o))
}

/// What construction runs, in order: open the outer transaction (in
/// `TransactionWrapped` mode only), ensure the bookkeeping table, then apply
/// every up directive in ascending ordinal order.
pub open spec fn construction_actions(mode: Mode, steps: Seq<Directive>) -> Seq<Action> {
    match mode {
        Mode::TransactionWrapped => seq![Action::Begin, Action::EnsureBookkeeping] + apply_actions(
            up_ordinals_of(steps),
        ),
        Mode::MigrationRollback => seq![Action::EnsureBookkeeping] + apply_actions(
            up_ordinals_of(steps),
        ),
    }
}

/// What teardown runs, in order. `TransactionWrapped`: roll the outer
/// transaction back and close. `MigrationRollback`: revert every applied
/// directive in descending ordinal order, drop the bookkeeping table, close.
pub open spec fn teardown_actions(mode: Mode, steps: Seq<Directive>) -> Seq<Action> {
    match mode {
        Mode::TransactionWrapped => seq![Action::Rollback, Action::Close],
        Mode::MigrationRollback => revert_actions(up_ordinals_of(steps).reverse()) + seq![
            Action::DropBookkeeping,
            Action::Close,
        ],
    }
}

/// What cleanup runs when construction fails after `applied_count` up
/// directives succeeded: the connection must not leak and no schema may stay
/// behind.
pub open spec fn failure_actions(mode: Mode, steps: Seq<Directive>, applied_count: int) -> Seq<
    Action,
> {
    match mode {
        Mode::TransactionWrapped => seq![Action::Rollback, Action::Close],
        Mode::MigrationRollback => revert_actions(
            up_ordinals_of(steps).take(applied_count).reverse(),
        ) + seq![Action::DropBookkeeping, Action::Close],
    }
}

/// What construction runs before the first up directive.
pub open spec fn prefix_actions(mode: Mode) -> Seq<Action> {
    match mode {
        Mode::TransactionWrapped => seq![Action::Begin, Action::EnsureBookkeeping],
        Mode::MigrationRollback => seq![Action::EnsureBookkeeping],
    }
}

/// What undoes a construction that applied exactly the ordinals `os`, in
/// that order: the factored form shared by teardown and by cleanup after a
/// failed construction.
pub open spec fn undo_actions(mode: Mode, os: Seq<u64>) -> Seq<Action> {
    match mode {
        Mode::TransactionWrapped => seq![Action::Rollback, Action::Close],
        Mode::MigrationRollback => revert_actions(os.reverse()) + seq![
            Action::DropBookkeeping,
            Action::Close,
        ],
    }
}

/// What a construction that stopped after `applied_count` up directives has
/// run so far.
pub open spec fn partial_construction_actions(
    mode: Mode,
    steps: Seq<Directive>,
    applied_count: int,
) -> Seq<Action> {
    prefix_actions(mode) + apply_actions(up_ordinals_of(steps).take(applied_count))
}

/// The values of `v` in reverse order.
fn reversed(v: &Vec<u64>) -> (r: Vec<u64>)
    ensures
        r@ == v@.reverse(),
{
    let mut r: Vec<u64> = Vec::new();
    let mut i: usize = v.len();
    while i > 0
        invariant
            0 <= i <= v@.len(),
            r@.len() == v@.len() - i,
            forall|k: int| 0 <= k < r@.len() ==> r@[k] == v@[v@.len() - 1 - k],
        decreases i,
    {
        i = i - 1;
        r.push(v[i]);
    }
    proof {
        assert(r@ =~= v@.reverse());
    }
    r
}

/// Append `Apply` actions for each ordinal of `ups`, in order.
fn push_applies(p: &mut Vec<Action>, ups: &Vec<u64>)
    ensures
        final(p)@ == old(p)@ + apply_actions(ups@),
{
    let mut i: usize = 0;
    proof {
        assert(p@ =~= old(p)@ + apply_actions(ups@.take(0)));
    }
    while i < ups.len()
        invariant
            0 <= i <= ups@.len(),
            p@ == old(p)@ + apply_actions(ups@.take(i as int)),
        decreases ups@.len() - i,
    {
        p.push(Action::Apply(ups[i]));
        proof {
            assert(p@ =~= old(p)@ + apply_actions(ups@.take(i as int + 1)));
        }
        i = i + 1;
    }
    proof {
        assert(ups@.take(ups@.len() as int) =~= ups@);
    }
}

/// Append `Revert` actions for each ordinal of `os`, in order.
fn push_reverts(p: &mut Vec<Action>, os: &Vec<u64>)
    ensures
        final(p)@ == old(p)@ + revert_actions(os@),
{
    let mut i: usize = 0;
    proof {
        assert(p@ =~= old(p)@ + revert_actions(os@.take(0)));
    }
    while i < os.len()
        invariant
            0 <= i <= os@.len(),
            p@ == old(p)@ + revert_actions(os@.take(i as int)),
        decreases os@.len() - i,
    {
        p.push(Action::Revert(os[i]));
        proof {
            assert(p@ =~= old(p)@ + revert_actions(os@.take(i as int + 1)));
        }
        i = i + 1;
    }
    proof {
        assert(os@.take(os@.len() as int) =~= os@);
    }
}

/// Build the construction plan for this mode and directive set.
pub fn construction_plan(mode: Mode, steps: &Vec<Directive>) -> (p: Vec<Action>)
    ensures
        p@ == construction_actions(mode, steps@),
{
    let mut p: Vec<Action> = Vec::new();
    match mode {
        Mode::TransactionWrapped => {
            p.push(Action::Begin);
            p.push(Action::EnsureBookkeeping);
        },
        Mode::MigrationRollback => {
            p.push(Action::EnsureBookkeeping);
        },
    }
    let ups = up_ordinals(steps);
    push_applies(&mut p, &ups);
    proof {
        assert(p@ =~= construction_actions(mode, steps@));
    }
    p
}

/// Build the teardown plan for this mode and directive set.
pub fn teardown_plan(mode: Mode, steps: &Vec<Directive>) -> (p: Vec<Action>)
    ensures
        p@ == teardown_actions(mode, steps@),
{
    let mut p: Vec<Action> = Vec::new();
    match mode {
        Mode::TransactionWrapped => {
            p.push(Action::Rollback);
            p.push(Action::Close);
        },
        Mode::MigrationRollback => {
            let ups = up_ordinals(steps);
            let rev = reversed(&ups);
            push_reverts(&mut p, &rev);
            p.push(Action::DropBookkeeping);
            p.push(Action::Close);
        },
    }
    proof {
        assert(p@ =~= teardown_actions(mode, steps@));
    }
    p
}

/// Build the cleanup plan for a construction that failed after
/// `applied_count` up directives had already been applied.
pub fn failure_plan(mode: Mode, steps: &Vec<Directive>, applied_count: usize) -> (p: Vec<Action>)
    requires
        applied_count <= up_ordinals_of(steps@).len(),
    ensures
        p@ == failure_actions(mode, steps@, applied_count as int),
{
    let mut p: Vec<Action> = Vec::new();
    match mode {
        Mode::TransactionWrapped => {
            p.push(Action::Rollback);
            p.push(Action::Close);
        },
        Mode::MigrationRollback => {
            let ups = up_ordinals(steps);
            let mut done: Vec<u64> = Vec::new();
            let mut i: usize = 0;
            proof {
                assert(done@ =~= ups@.take(0));
            }
            while i < applied_count
                invariant
                    0 <= i <= applied_count,
                    applied_count <= ups@.len(),
                    ups@ == up_ordinals_of(steps@),
                    done@ == ups@.take(i as int),
                decreases applied_count - i,
            {
                done.push(ups[i]);
                proof {
                    assert(done@ =~= ups@.take(i as int + 1));
                }
                i = i + 1;
            }
            let rev = reversed(&done);
            push_reverts(&mut p, &rev);
            p.push(Action::DropBookkeeping);
            p.push(Action::Close);
        },
    }
    proof {
        assert(p@ =~= failure_actions(mode, steps@, applied_count as int));
    }
    p
}

} // verus!
