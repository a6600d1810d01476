use test_session::bridge::Bridge;
use test_session::directive::{Directive, DirectiveKind, Mode};
use test_session::model::{Action, DbConn};
use test_session::session::{ActiveHandle, Session};
use test_session::SessionError;

fn up(ordinal: u64) -> Directive {
    Directive { ordinal, kind: DirectiveKind::Up }
}

fn down(ordinal: u64) -> Directive {
    Directive { ordinal, kind: DirectiveKind::Down }
}

fn create_foo_bar() -> Vec<Directive> {
    vec![up(1), up(2), down(1), down(2)]
}

#[test]
fn new_accepts_well_formed_set() {
    let session = Session::new(create_foo_bar(), Mode::TransactionWrapped).unwrap();
    assert!(session.handle_active());
    assert_eq!(session.mode(), Mode::TransactionWrapped);
}

#[test]
fn new_rejects_unsorted_ups() {
    let steps = vec![up(2), up(1), down(1), down(2)];
    let r = Session::new(steps, Mode::TransactionWrapped);
    assert_eq!(r.err().unwrap(), SessionError::MigrationFailed);
}

#[test]
fn new_rejects_up_without_down() {
    let steps = vec![up(1), up(2), down(1)];
    let r = Session::new(steps, Mode::MigrationRollback);
    assert_eq!(r.err().unwrap(), SessionError::MigrationFailed);
}

#[test]
fn new_rejects_down_without_up() {
    let steps = vec![down(3)];
    let r = Session::new(steps, Mode::MigrationRollback);
    assert_eq!(r.err().unwrap(), SessionError::MigrationFailed);
}

#[test]
fn construction_plan_is_exact() {
    let session = Session::new(create_foo_bar(), Mode::TransactionWrapped).unwrap();
    let plan = session.construction_plan();
    assert_eq!(
        plan,
        vec![
            Action::Begin,
            Action::EnsureBookkeeping,
            Action::Apply(1),
            Action::Apply(2),
        ]
    );

    let session = Session::new(create_foo_bar(), Mode::MigrationRollback).unwrap();
    let plan = session.construction_plan();
    assert_eq!(
        plan,
        vec![Action::EnsureBookkeeping, Action::Apply(1), Action::Apply(2)]
    );
}

#[test]
fn teardown_reverts_in_descending_order() {
    let mut session = Session::new(create_foo_bar(), Mode::MigrationRollback).unwrap();
    let plan = session.close().unwrap();
    assert_eq!(
        plan,
        vec![
            Action::Revert(2),
            Action::Revert(1),
            Action::DropBookkeeping,
            Action::Close,
        ]
    );
}

#[test]
fn close_twice_is_a_no_op() {
    let mut session = Session::new(create_foo_bar(), Mode::TransactionWrapped).unwrap();
    let first = session.close();
    assert_eq!(first.unwrap(), vec![Action::Rollback, Action::Close]);
    assert!(!session.handle_active());
    let second = session.close();
    assert!(second.is_none());
    let third = session.close();
    assert!(third.is_none());
}

#[test]
fn handle_reflects_mode_and_teardown() {
    let mut session = Session::new(create_foo_bar(), Mode::TransactionWrapped).unwrap();
    assert_eq!(session.handle(), ActiveHandle::Transaction);
    let _ = session.close();
    assert_eq!(session.handle(), ActiveHandle::Consumed);

    let mut session = Session::new(create_foo_bar(), Mode::MigrationRollback).unwrap();
    assert_eq!(session.handle(), ActiveHandle::Connection);
    let _ = session.close();
    assert_eq!(session.handle(), ActiveHandle::Consumed);
}

#[test]
fn bridge_reclaims_exactly_once() {
    let mut bridge = Bridge::bridge(42u64);
    assert!(bridge.is_live());
    assert_eq!(*bridge.peek(), 42);
    *bridge.handle() = 7;
    assert_eq!(bridge.reclaim(), Some(7));
    assert!(!bridge.is_live());
    assert_eq!(bridge.reclaim(), None);
    assert_eq!(bridge.reclaim(), None);
}

#[test]
fn transaction_wrapped_session_round_trip() {
    let mut conn = DbConn::new();
    let mut session = Session::new(create_foo_bar(), Mode::TransactionWrapped).unwrap();

    conn.run_plan(&session.construction_plan());
    assert_eq!(conn.open_frames(), 1);
    // The handle sees both tables and the bookkeeping table; a separate
    // connection sees nothing yet.
    assert_eq!(conn.frames[0].tables, vec![1, 2]);
    assert!(conn.frames[0].has_bookkeeping);
    assert!(conn.committed.tables.is_empty());

    // Test logic writes rows inside a nested transaction and commits it.
    conn.exec_action(Action::Begin);
    conn.exec_action(Action::Write(10));
    conn.exec_action(Action::Write(7));
    conn.exec_action(Action::Commit);
    assert_eq!(conn.frames[0].rows, vec![10, 7]);
    assert!(conn.committed.rows.is_empty());

    conn.run_plan(&session.close().unwrap());
    assert_eq!(conn.open_frames(), 0);
    assert!(conn.committed.tables.is_empty());
    assert!(conn.committed.rows.is_empty());
    assert!(conn.committed.applied.is_empty());
    assert!(!conn.committed.has_bookkeeping);
}

#[test]
fn migration_rollback_session_round_trip() {
    let mut conn = DbConn::new();
    let mut session = Session::new(create_foo_bar(), Mode::MigrationRollback).unwrap();

    conn.run_plan(&session.construction_plan());
    // No outer transaction in this mode: the schema is committed directly.
    assert_eq!(conn.open_frames(), 0);
    assert_eq!(conn.committed.tables, vec![1, 2]);
    assert_eq!(conn.committed.applied, vec![1, 2]);
    assert!(conn.committed.has_bookkeeping);

    conn.run_plan(&session.close().unwrap());
    assert!(conn.committed.tables.is_empty());
    assert!(conn.committed.applied.is_empty());
    assert!(!conn.committed.has_bookkeeping);
}

#[test]
fn repeated_sessions_leave_no_trace() {
    let mut conn = DbConn::new();
    for _ in 0..100 {
        let mut session = Session::new(create_foo_bar(), Mode::TransactionWrapped).unwrap();
        conn.run_plan(&session.construction_plan());
        conn.exec_action(Action::Begin);
        conn.exec_action(Action::Write(10));
        conn.exec_action(Action::Commit);
        conn.run_plan(&session.close().unwrap());
        assert_eq!(conn.open_frames(), 0);
        assert!(conn.committed.tables.is_empty());
        assert!(conn.committed.rows.is_empty());
        assert!(!conn.committed.has_bookkeeping);
    }
}

#[test]
fn failed_construction_leaves_nothing_behind() {
    // The second up directive fails: construction stops after one apply and
    // runs the cleanup plan. Nothing may stay behind, in either mode.
    for mode in [Mode::TransactionWrapped, Mode::MigrationRollback] {
        let mut conn = DbConn::new();
        let session = Session::new(create_foo_bar(), mode).unwrap();

        let plan = session.construction_plan();
        // Run everything up to and including the first apply; the second
        // apply is where the driver reports failure.
        let prefix_len: usize = plan.len() - 1;
        for i in 0..prefix_len {
            conn.exec_action(plan[i]);
        }
        conn.run_plan(&session.failure_plan(1));

        assert_eq!(conn.open_frames(), 0);
        assert!(conn.committed.tables.is_empty());
        assert!(conn.committed.applied.is_empty());
        assert!(conn.committed.rows.is_empty());
        assert!(!conn.committed.has_bookkeeping);
    }
}
