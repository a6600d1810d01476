//! Migration directives and the well-formedness of a directive set.

use vstd::prelude::*;

verus! {

/// Whether a directive builds schema state up or tears it down.
#[derive(Clone, Copy, PartialEq, Eq, Structural, Debug)]
pub enum DirectiveKind {
    Up,
    Down,
}

/// One migration step: an ordinal that fixes its place in the order, and a
/// kind. The body of the step (the SQL it runs) stays with the driver; the
/// session logic only needs the order and the pairing.
#[derive(Clone, Copy, PartialEq, Eq, Structural, Debug)]
pub struct Directive {
    pub ordinal: u64,
    pub kind: DirectiveKind,
}

/// The isolation mode of a session, fixed at construction.
#[derive(Clone, Copy, PartialEq, Eq, Structural, Debug)]
pub enum Mode {
    /// Everything the session does lives inside one outer transaction that
    /// teardown rolls back.
    TransactionWrapped,
    /// Migrations are committed directly; teardown replays the inverse
    /// directives in reverse order and drops the bookkeeping table.
    MigrationRollback,
}

/// The ordinals of the up directives, in the order they stand in the set.
pub open spec fn up_ordinals_of(s: Seq<Directive>) -> Seq<u64>
    decreases s.len(),
{
    if s.len() == 0 {
        Seq::empty()
    } else if s.last().kind is Up {
        up_ordinals_of(s.drop_last()).push(s.last().ordinal)
    } else {
        up_ordinals_of(s.drop_last())
    }
}

pub open spec fn strictly_ascending(q: Seq<u64>) -> bool {
    forall|i: int, j: int| 0 <= i < j < q.len() ==> q[i] < q[j]
}

pub open spec fn strictly_descending(q: Seq<u64>) -> bool {
    forall|i: int, j: int| 0 <= i < j < q.len() ==> q[i] > q[j]
}

/// Whether some directive in `s` has this kind and ordinal.
pub open spec fn has_directive(s: Seq<Directive>, k: DirectiveKind, o: u64) -> bool {
    exists|i: int| 0 <= i < s.len() && s[i].kind == k && s[i].ordinal == o
}

pub open spec fn opposite(k: DirectiveKind) -> DirectiveKind {
    match k {
        DirectiveKind::Up => DirectiveKind::Down,
        DirectiveKind::Down => DirectiveKind::Up,
    }
}

/// Every directive is paired with an inverse of the same ordinal.
pub open spec fn paired(s: Seq<Directive>) -> bool {
    forall|i: int|
        0 <= i < s.len() ==> #[trigger] has_directive(s, opposite(s[i].kind), s[i].ordinal)
}

/// A well-formed directive set: up directives come in strictly ascending
/// ordinal order, and every directive has a matching inverse. A set that
/// fails this check is rejected at session construction rather than left to
/// surprise teardown.
pub open spec fn valid_directive_set(s: Seq<Directive>) -> bool {
    &&& strictly_ascending(up_ordinals_of(s))
    &&& paired(s)
}

/// Whether `steps` holds a directive of kind `k` with ordinal `o`.
pub fn contains_directive(steps: &Vec<Directive>, k: DirectiveKind, o: u64) -> (r: bool)
    ensures
        r == has_directive(steps@, k, o),
{
    let mut i: usize = 0;
    while i < steps.len()
        invariant
            0 <= i <= steps@.len(),
            forall|j: int| 0 <= j < i ==> !(steps@[j].kind == k && steps@[j].ordinal == o),
        decreases steps@.len() - i,
    {
        if steps[i].kind == k && steps[i].ordinal == o {
            return true;
        }
        i = i + 1;
    }
    false
}

/// The up ordinals of `steps`, extracted in order.
pub fn up_ordinals(steps: &Vec<Directive>) -> (r: Vec<u64>)
    ensures
        r@ == up_ordinals_of(steps@),
{
    let mut r: Vec<u64> = Vec::new();
    let mut i: usize = 0;
    while i < steps.len()
        invariant
            0 <= i <= steps@.len(),
            r@ == up_ordinals_of(steps@.take(i as int)),
        decreases steps@.len() - i,
    {
        proof {
            assert(steps@.take(i as int + 1).drop_last() =~= steps@.take(i as int));
            assert(steps@.take(i as int + 1).last() == steps@[i as int]);
        }
        if steps[i].kind == DirectiveKind::Up {
            r.push(steps[i].ordinal);
        }
        i = i + 1;
    }
    proof {
        assert(steps@.take(steps@.len() as int) =~= steps@);
    }
    r
}

/// Whether the up ordinals of `steps` are strictly ascending.
pub fn check_ascending(steps: &Vec<Directive>) -> (r: bool)
    ensures
        r == strictly_ascending(up_ordinals_of(steps@)),
{
    let ups = up_ordinals(steps);
    if ups.len() == 0 {
        return true;
    }
    let mut i: usize = 1;
    while i < ups.len()
        invariant
            1 <= i <= ups@.len(),
            ups@ == up_ordinals_of(steps@),
            forall|a: int, b: int| 0 <= a < b < i ==> ups@[a] < ups@[b],
        decreases ups@.len() - i,
    {
        if ups[i - 1] >= ups[i] {
            assert(!strictly_ascending(up_ordinals_of(steps@)));
            return false;
        }
        assert forall|a: int, b: int| 0 <= a < b < i + 1 implies ups@[a] < ups@[b] by {
            if b == i {
                if a < i - 1 {
                    assert(ups@[a] < ups@[i - 1]);
                }
            }
        }
        i = i + 1;
    }
    true
}

/// Whether every directive in `steps` has a matching inverse.
pub fn check_paired(steps: &Vec<Directive>) -> (r: bool)
    ensures
        r == paired(steps@),
{
    let mut i: usize = 0;
    while i < steps.len()
        invariant
            0 <= i <= steps@.len(),
            forall|j: int|
                0 <= j < i ==> #[trigger] has_directive(
                    steps@,
                    opposite(steps@[j].kind),
                    steps@[j].ordinal,
                ),
        decreases steps@.len() - i,
    {
        let want = match steps[i].kind {
            DirectiveKind::Up => DirectiveKind::Down,
            DirectiveKind::Down => DirectiveKind::Up,
        };
        if !contains_directive(steps, want, steps[i].ordinal) {
            assert(!paired(steps@));
            return false;
        }
        i = i + 1;
    }
    true
}

/// Whether `steps` is a well-formed directive set.
pub fn validate_directives(steps: &Vec<Directive>) -> (r: bool)
    ensures
        r == valid_directive_set(steps@),
{
    check_ascending(steps) && check_paired(steps)
}

} // verus!
