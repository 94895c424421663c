use clickhouse_testing::Database;
use clickhouse_testing::Error;
use clickhouse_testing::lifecycle::{
    SetupAction, SetupEvent, SetupState, TeardownAction, TeardownEvent, TeardownState,
    setup_start, setup_step, teardown_start, teardown_step,
};
use clickhouse_testing::run::{
    BodyOutcome, RunAction, RunEvent, RunState, Verdict, run_start, run_step,
};

fn db(name: &str) -> Database {
    Database { name: name.to_string() }
}

fn expect_execute(a: SetupAction) -> String {
    match a {
        SetupAction::Execute(q) => q,
        _ => panic!("expected an Execute action"),
    }
}

#[test]
fn fresh_setup_runs_end_to_end() {
    // no pre-existing disposable database for "orders": setup creates
    // test_db_orders_1, migrates it, and teardown removes it again
    let (state, action) = setup_start();
    assert!(matches!(action, SetupAction::FetchCatalog));

    let catalog = vec![db("default"), db("system")];
    let (state, action) = setup_step(state, "orders", SetupEvent::Catalog(catalog));
    assert_eq!(expect_execute(action), "CREATE DATABASE IF NOT EXISTS test_db_orders_1");

    let (state, action) = setup_step(state, "orders", SetupEvent::StatementOk);
    match &action {
        SetupAction::BindAndLoad(name) => assert_eq!(name, "test_db_orders_1"),
        _ => panic!("expected a BindAndLoad action"),
    }

    let migrations = vec!["CREATE TABLE t (x UInt32) ENGINE = Memory".to_string()];
    let (state, action) = setup_step(state, "orders", SetupEvent::Migrations(migrations));
    match &action {
        SetupAction::Apply(q) => assert_eq!(q, "CREATE TABLE t (x UInt32) ENGINE = Memory"),
        _ => panic!("expected an Apply action"),
    }

    let (state, action) = setup_step(state, "orders", SetupEvent::StatementOk);
    match &action {
        SetupAction::Succeed(name) => assert_eq!(name, "test_db_orders_1"),
        _ => panic!("expected setup to succeed"),
    }
    assert!(matches!(state, SetupState::Ready { .. }));

    // the body ran `SELECT count() FROM t` against an empty, freshly
    // migrated table and saw 0: success, so teardown runs
    let (td, action) = teardown_start();
    assert!(matches!(action, TeardownAction::FetchCurrent));
    let (td, action) = teardown_step(td, TeardownEvent::CurrentDb(db("test_db_orders_1")));
    match &action {
        TeardownAction::Execute(q) => assert_eq!(q, "DROP DATABASE test_db_orders_1"),
        _ => panic!("expected the drop statement"),
    }
    let (td, action) = teardown_step(td, TeardownEvent::StatementOk);
    assert!(matches!(td, TeardownState::TornDown));
    assert!(matches!(action, TeardownAction::Succeed));
}

#[test]
fn rerun_after_skipped_teardown_picks_the_next_version() {
    // test_db_orders_1 survives from a prior skipped teardown: setup must
    // produce test_db_orders_2 and leave test_db_orders_1 untouched
    let (state, _) = setup_start();
    let catalog = vec![db("default"), db("test_db_orders_1"), db("system")];
    let (state, action) = setup_step(state, "orders", SetupEvent::Catalog(catalog));
    let q = expect_execute(action);
    assert_eq!(q, "CREATE DATABASE IF NOT EXISTS test_db_orders_2");
    assert!(!q.contains("DROP"));

    let (_, action) = setup_step(state, "orders", SetupEvent::StatementOk);
    match &action {
        SetupAction::BindAndLoad(name) => assert_eq!(name, "test_db_orders_2"),
        _ => panic!("expected a BindAndLoad action"),
    }
}

#[test]
fn teardown_drops_the_actually_bound_database() {
    // the client was rebound between setup and teardown: the remembered
    // name from setup plays no part, only the server's answer does
    let remembered_from_setup = "test_db_orders_1";
    let (td, _) = teardown_start();
    let (_, action) = teardown_step(td, TeardownEvent::CurrentDb(db("test_db_elsewhere_3")));
    match &action {
        TeardownAction::Execute(q) => {
            assert_eq!(q, "DROP DATABASE test_db_elsewhere_3");
            assert_ne!(q, &format!("DROP DATABASE {}", remembered_from_setup));
        }
        _ => panic!("expected the drop statement"),
    }
}

#[test]
fn empty_migration_set_succeeds_directly() {
    let (state, _) = setup_start();
    let (state, _) = setup_step(state, "t", SetupEvent::Catalog(vec![]));
    let (state, _) = setup_step(state, "t", SetupEvent::StatementOk);
    let (state, action) = setup_step(state, "t", SetupEvent::Migrations(vec![]));
    assert!(matches!(state, SetupState::Ready { .. }));
    match &action {
        SetupAction::Succeed(name) => assert_eq!(name, "test_db_t_1"),
        _ => panic!("expected setup to succeed"),
    }
}

#[test]
fn migrations_apply_in_sequence_and_stop_at_first_failure() {
    let (state, _) = setup_start();
    let (state, _) = setup_step(state, "t", SetupEvent::Catalog(vec![]));
    let (state, _) = setup_step(state, "t", SetupEvent::StatementOk);
    let migrations = vec!["one".to_string(), "two".to_string(), "three".to_string()];
    let (state, action) = setup_step(state, "t", SetupEvent::Migrations(migrations));
    assert!(matches!(&action, SetupAction::Apply(q) if q == "one"));
    let (state, action) = setup_step(state, "t", SetupEvent::StatementOk);
    assert!(matches!(&action, SetupAction::Apply(q) if q == "two"));
    let (state, action) = setup_step(state, "t", SetupEvent::EngineError("syntax error".to_string()));
    assert!(matches!(state, SetupState::SetupFailed));
    match action {
        SetupAction::Fail(Error::Migration(m)) => assert_eq!(m, "syntax error"),
        _ => panic!("expected a migration error"),
    }
}

#[test]
fn catalog_failures_are_engine_errors_not_migration_errors() {
    let (state, _) = setup_start();
    let (_, action) = setup_step(state, "t", SetupEvent::EngineError("auth failed".to_string()));
    match action {
        SetupAction::Fail(Error::Clickhouse(m)) => assert_eq!(m, "auth failed"),
        _ => panic!("expected an engine error"),
    }
}

#[test]
fn teardown_failure_carries_the_engine_text() {
    let (td, _) = teardown_start();
    let (td, _) = teardown_step(td, TeardownEvent::CurrentDb(db("test_db_t_1")));
    let (td, action) = teardown_step(td, TeardownEvent::EngineError("db is busy".to_string()));
    assert!(matches!(td, TeardownState::TeardownFailed));
    match action {
        TeardownAction::Fail(Error::Clickhouse(m)) => assert_eq!(m, "db is busy"),
        _ => panic!("expected an engine error"),
    }
}

#[test]
fn passing_body_leads_to_teardown_then_pass() {
    let state = run_start();
    assert!(matches!(state, RunState::SettingUp));
    let (state, action) = run_step(state, "t1", RunEvent::SetupOk);
    assert!(matches!(action, RunAction::RunBody));
    let (state, action) = run_step(state, "t1", RunEvent::BodyFinished(BodyOutcome::Success));
    assert!(matches!(action, RunAction::RunTeardown));
    let (_, action) = run_step(state, "t1", RunEvent::CleanupOk);
    assert!(matches!(action, RunAction::Conclude(Verdict::Passed)));
}

#[test]
fn failing_body_skips_teardown_and_resurfaces_the_failure() {
    let state = run_start();
    let (state, _) = run_step(state, "t1", RunEvent::SetupOk);
    let outcome = BodyOutcome::Failure("assertion failed: left != right".to_string());
    let (state, action) = run_step(state, "t1", RunEvent::BodyFinished(outcome));
    assert!(matches!(state, RunState::Concluded));
    assert!(!matches!(action, RunAction::RunTeardown));
    match action {
        RunAction::Conclude(Verdict::BodyFailed(msg)) => {
            assert_eq!(msg, "Test t1 failed: assertion failed: left != right");
        }
        _ => panic!("expected the body failure to be re-surfaced"),
    }
    // the database whose name the namer chose stays discoverable: it
    // carries the identifier's pattern
    let name = clickhouse_testing::next_db_version(&[], "t1");
    assert!(name.starts_with("test_db_t1_"));
}

#[test]
fn setup_failure_aborts_before_the_body() {
    let state = run_start();
    let err = Error::Env("MIGRATIONS_DIR is not set".to_string());
    let (state, action) = run_step(state, "t2", RunEvent::SetupError(err));
    assert!(matches!(state, RunState::Concluded));
    match action {
        RunAction::Conclude(Verdict::SetupFailed(msg)) => {
            assert_eq!(msg, "Failed to setup test t2 client: MIGRATIONS_DIR is not set");
        }
        _ => panic!("expected a setup failure"),
    }
}

#[test]
fn cleanup_failure_is_reported_distinctly() {
    let state = run_start();
    let (state, _) = run_step(state, "t3", RunEvent::SetupOk);
    let (state, _) = run_step(state, "t3", RunEvent::BodyFinished(BodyOutcome::Success));
    let err = Error::Clickhouse("drop refused".to_string());
    let (_, action) = run_step(state, "t3", RunEvent::CleanupError(err));
    match action {
        RunAction::Conclude(Verdict::CleanupFailed(msg)) => {
            assert_eq!(msg, "Failed to cleanup test t3 data: drop refused");
        }
        _ => panic!("expected a cleanup failure"),
    }
}

#[test]
fn error_text_is_preserved() {
    assert_eq!(Error::Io("gone".to_string()).into_text(), "gone");
    assert_eq!(Error::Migration("bad".to_string()).into_text(), "bad");
}

#[test]
fn client_construction_is_pure() {
    // building a client probes no connection; it only records the config
    let c = clickhouse_testing::config::resolve_config(None, None, None, None);
    let _client = clickhouse_testing::client::create_client(&c);
}
