use test_session::adapter::{PerRequestTransactionAdapter, UnitOfWork};
use test_session::directive::{Directive, DirectiveKind, Mode};
use test_session::model::{Action, DbConn};
use test_session::session::Session;

fn migration_set() -> Vec<Directive> {
    vec![
        Directive { ordinal: 1, kind: DirectiveKind::Up },
        Directive { ordinal: 1, kind: DirectiveKind::Down },
    ]
}

#[test]
fn successful_unit_commits_into_outer_transaction() {
    let mut conn = DbConn::new();
    let session = Session::new(migration_set(), Mode::TransactionWrapped).unwrap();
    conn.run_plan(&session.construction_plan());

    let adapter = PerRequestTransactionAdapter::new(session);
    let unit = UnitOfWork { writes: vec![10, 7], succeeds: true };
    assert!(adapter.run_unit_of_work(&mut conn, &unit));

    assert_eq!(conn.open_frames(), 1);
    assert_eq!(conn.frames[0].rows, vec![10, 7]);
    assert!(conn.committed.rows.is_empty());
}

#[test]
fn failing_unit_is_discarded() {
    let mut conn = DbConn::new();
    let session = Session::new(migration_set(), Mode::TransactionWrapped).unwrap();
    conn.run_plan(&session.construction_plan());

    let adapter = PerRequestTransactionAdapter::new(session);
    let unit = UnitOfWork { writes: vec![99], succeeds: false };
    assert!(!adapter.run_unit_of_work(&mut conn, &unit));

    assert_eq!(conn.open_frames(), 1);
    assert!(conn.frames[0].rows.is_empty());
    assert!(conn.committed.rows.is_empty());
}

#[test]
fn exactly_the_successful_units_are_visible() {
    let mut conn = DbConn::new();
    let session = Session::new(migration_set(), Mode::TransactionWrapped).unwrap();
    conn.run_plan(&session.construction_plan());

    let adapter = PerRequestTransactionAdapter::new(session);
    let units = vec![
        UnitOfWork { writes: vec![10, 11], succeeds: true },
        UnitOfWork { writes: vec![99, 98], succeeds: false },
        UnitOfWork { writes: vec![12], succeeds: true },
        UnitOfWork { writes: vec![97], succeeds: false },
    ];
    let succeeded: usize = adapter.run_units(&mut conn, &units);

    assert_eq!(succeeded, 2);
    // The two successful units' writes, contiguous and in unit order; the
    // failing units left nothing, and nothing is committed outside the
    // session's outer transaction.
    assert_eq!(conn.frames[0].rows, vec![10, 11, 12]);
    assert!(conn.committed.rows.is_empty());
    assert_eq!(conn.open_frames(), 1);
}

#[test]
fn committed_units_still_vanish_at_teardown() {
    let mut conn = DbConn::new();
    let mut session = Session::new(migration_set(), Mode::TransactionWrapped).unwrap();
    conn.run_plan(&session.construction_plan());

    {
        let adapter = PerRequestTransactionAdapter::new(session);
        let units = vec![
            UnitOfWork { writes: vec![1], succeeds: true },
            UnitOfWork { writes: vec![2], succeeds: true },
        ];
        let succeeded: usize = adapter.run_units(&mut conn, &units);
        assert_eq!(succeeded, 2);
        assert_eq!(conn.frames[0].rows, vec![1, 2]);
        session = adapter.into_session();
    }

    conn.run_plan(&session.close().unwrap());
    assert_eq!(conn.open_frames(), 0);
    assert!(conn.committed.rows.is_empty());
    assert!(conn.committed.tables.is_empty());
    assert!(!conn.committed.has_bookkeeping);
}

#[test]
fn write_through_handle_is_observable_in_the_model() {
    // A plain write through the handle, outside any nested transaction,
    // lands in the active context and nowhere else.
    let mut conn = DbConn::new();
    conn.exec_action(Action::Begin);
    conn.exec_action(Action::Write(5));
    assert_eq!(conn.frames[0].rows, vec![5]);
    assert!(conn.committed.rows.is_empty());
    conn.exec_action(Action::Rollback);
    assert!(conn.committed.rows.is_empty());
}
