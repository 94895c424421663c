//! The lifecycle of one test invocation, as three state machines.
//!
//! Every database query is a suspending operation performed by the caller;
//! the machines here make all the decisions in between. The driver performs
//! the action a step hands out, then feeds the outcome back as the next
//! event.
//!
//! Setup: list the catalog, compute the next disposable name, create that
//! database idempotently, rebind the client, and apply the ordered
//! migrations one statement at a time. Teardown: ask the server which
//! database the client is bound to, then drop exactly that one. The test
//! run wraps both around the body: teardown runs only after a body that
//! signalled success, so a failing body's database survives for
//! postmortem inspection.

use vstd::prelude::*;
use crate::Database;
use crate::Error;
use crate::name::{max_version, next_name_spec, next_db_version};
use crate::sql::{create_db_sql_spec, drop_db_sql_spec, create_database_sql, drop_database_sql};
use crate::sql::lemma_drop_sql_injective;

verus! {

// ----- setup -----

pub enum SetupState {
    /// Waiting for the catalog listing.
    ListingCatalog,
    /// Waiting for the creation statement of `db_name` to finish.
    CreatingDb { db_name: String },
    /// Waiting for the ordered migration texts of `db_name`.
    LoadingMigrations { db_name: String },
    /// Waiting for migration `next` of `sqls` to finish against `db_name`.
    Applying { db_name: String, sqls: Vec<String>, next: usize },
    /// Setup is complete; the client is bound to `db_name`.
    Ready { db_name: String },
    /// Setup failed; no further step is taken.
    SetupFailed,
}

pub enum SetupEvent {
    /// The catalog listing: every database currently on the server.
    Catalog(Vec<Database>),
    /// The statement handed out by the previous step succeeded.
    StatementOk,
    /// The migration texts, in execution order.
    Migrations(Vec<String>),
    /// The engine or the filesystem failed, with this description.
    EngineError(String),
}

pub enum SetupAction {
    /// Run the catalog listing query and report its rows.
    FetchCatalog,
    /// Execute this statement on the admin-bound client.
    Execute(String),
    /// Rebind the client to this database, then collect the ordered
    /// migration texts.
    BindAndLoad(String),
    /// Execute this migration text on the rebound client.
    Apply(String),
    /// Setup is done: hand the caller the client bound to this database.
    Succeed(String),
    /// Setup is aborted with this error; whatever was created is left
    /// behind for inspection.
    Fail(Error),
}

/// The events each setup state is prepared for.
pub open spec fn setup_event_fits(s: SetupState, e: SetupEvent) -> bool {
    match (s, e) {
        (SetupState::ListingCatalog, SetupEvent::Catalog(_)) => true,
        (SetupState::CreatingDb { .. }, SetupEvent::StatementOk) => true,
        (SetupState::LoadingMigrations { .. }, SetupEvent::Migrations(_)) => true,
        (SetupState::Applying { sqls, next, .. }, SetupEvent::StatementOk) => (next as int)
            < sqls@.len(),
        (SetupState::ListingCatalog, SetupEvent::EngineError(_)) => true,
        (SetupState::CreatingDb { .. }, SetupEvent::EngineError(_)) => true,
        (SetupState::LoadingMigrations { .. }, SetupEvent::EngineError(_)) => true,
        (SetupState::Applying { .. }, SetupEvent::EngineError(_)) => true,
        _ => false,
    }
}

/// Whether an engine failure in this state happened while applying
/// migrations — those are reported as migration errors, kept distinct from
/// catalog and creation failures.
pub open spec fn in_migration_phase(s: SetupState) -> bool {
    match s {
        SetupState::LoadingMigrations { .. } => true,
        SetupState::Applying { .. } => true,
        _ => false,
    }
}

/// Begin a setup: the first thing to learn is what exists on the server.
pub fn setup_start() -> (r: (SetupState, SetupAction))
    ensures
        r.0 is ListingCatalog,
        r.1 is FetchCatalog,
{
    (SetupState::ListingCatalog, SetupAction::FetchCatalog)
}

/// One decision of the setup protocol: from the current state and the
/// event the driver observed, the next state and the next action.
pub fn setup_step(s: SetupState, test_id: &str, e: SetupEvent) -> (r: (SetupState, SetupAction))
    requires
        setup_event_fits(s, e),
        (s is ListingCatalog && e is Catalog) ==> match e {
            SetupEvent::Catalog(dbs) => max_version(dbs@, test_id@) + 1 <= u64::MAX as int,
            _ => true,
        },
    ensures
        match (s, e) {
            (SetupState::ListingCatalog, SetupEvent::Catalog(dbs)) => {
                let nm = next_name_spec(dbs@, test_id@);
                &&& (r.0 matches SetupState::CreatingDb { db_name } && db_name@ == nm)
                &&& (r.1 matches SetupAction::Execute(q) && q@ == create_db_sql_spec(nm))
            },
            (SetupState::CreatingDb { db_name }, SetupEvent::StatementOk) => {
                &&& (r.0 matches SetupState::LoadingMigrations { db_name: d } && d@ == db_name@)
                &&& (r.1 matches SetupAction::BindAndLoad(d) && d@ == db_name@)
            },
            (SetupState::LoadingMigrations { db_name }, SetupEvent::Migrations(sqls)) => {
                if sqls@.len() == 0 {
                    &&& (r.0 matches SetupState::Ready { db_name: d } && d@ == db_name@)
                    &&& (r.1 matches SetupAction::Succeed(d) && d@ == db_name@)
                } else {
                    &&& (r.0 matches SetupState::Applying { db_name: d, sqls: s2, next }
                        && d@ == db_name@ && s2@ == sqls@ && next == 0)
                    &&& (r.1 matches SetupAction::Apply(q) && q@ == sqls@[0]@)
                }
            },
            (SetupState::Applying { db_name, sqls, next }, SetupEvent::StatementOk) => {
                if next + 1 < sqls@.len() {
                    &&& (r.0 matches SetupState::Applying { db_name: d, sqls: s2, next: n2 }
                        && d@ == db_name@ && s2@ == sqls@ && n2 == next + 1)
                    &&& (r.1 matches SetupAction::Apply(q) && q@ == sqls@[next + 1]@)
                } else {
                    &&& (r.0 matches SetupState::Ready { db_name: d } && d@ == db_name@)
                    &&& (r.1 matches SetupAction::Succeed(d) && d@ == db_name@)
                }
            },
            (st, SetupEvent::EngineError(m)) => {
                &&& r.0 is SetupFailed
                &&& (r.1 matches SetupAction::Fail(err) && err.text() == m@ && (
                    if in_migration_phase(st) {
                        err is Migration
                    } else {
                        err is Clickhouse
                    }))
            },
            _ => true,
        },
{
    match (s, e) {
        (SetupState::ListingCatalog, SetupEvent::Catalog(dbs)) => {
            let db_name = next_db_version(dbs.as_slice(), test_id);
            let q = create_database_sql(db_name.as_str());
            (SetupState::CreatingDb { db_name }, SetupAction::Execute(q))
        },
        (SetupState::CreatingDb { db_name }, SetupEvent::StatementOk) => {
            let d = db_name.clone();
            (SetupState::LoadingMigrations { db_name: d }, SetupAction::BindAndLoad(db_name))
        },
        (SetupState::LoadingMigrations { db_name }, SetupEvent::Migrations(sqls)) => {
            if sqls.len() == 0 {
                let d = db_name.clone();
                (SetupState::Ready { db_name: d }, SetupAction::Succeed(db_name))
            } else {
                let q = sqls[0].clone();
                (
                    SetupState::Applying { db_name, sqls, next: 0 },
                    SetupAction::Apply(q),
                )
            }
        },
        (SetupState::Applying { db_name, sqls, next }, SetupEvent::StatementOk) => {
            let len = sqls.len();
            proof {
                assert((next as int) < sqls@.len());
            }
            let n2 = next + 1;
            if n2 < len {
                let q = sqls[n2].clone();
                (
                    SetupState::Applying { db_name, sqls, next: n2 },
                    SetupAction::Apply(q),
                )
            } else {
                let d = db_name.clone();
                (SetupState::Ready { db_name: d }, SetupAction::Succeed(db_name))
            }
        },
        (st, SetupEvent::EngineError(m)) => {
            let err = if matches!(st, SetupState::LoadingMigrations { .. })
                || matches!(st, SetupState::Applying { .. }) {
                Error::Migration(m)
            } else {
                Error::Clickhouse(m)
            };
            (SetupState::SetupFailed, SetupAction::Fail(err))
        },
        _ => {
            proof {
                assert(false);
            }
            (SetupState::SetupFailed, SetupAction::FetchCatalog)
        },
    }
}

// ----- teardown -----

pub enum TeardownState {
    /// Waiting for the server to report the client's bound database.
    QueryingCurrent,
    /// Waiting for the drop of `target` to finish.
    DroppingDb { target: String },
    /// The bound database is gone.
    TornDown,
    /// Teardown failed; reported as a distinct cleanup failure.
    TeardownFailed,
}

pub enum TeardownEvent {
    /// The server's answer: the database this client is bound to.
    CurrentDb(Database),
    /// The drop statement succeeded.
    StatementOk,
    /// The engine failed, with this description.
    EngineError(String),
}

pub enum TeardownAction {
    /// Ask the server which database the client is currently bound to.
    FetchCurrent,
    /// Execute this statement.
    Execute(String),
    /// Teardown is complete.
    Succeed,
    /// Teardown failed with this error.
    Fail(Error),
}

pub open spec fn teardown_event_fits(s: TeardownState, e: TeardownEvent) -> bool {
    match (s, e) {
        (TeardownState::QueryingCurrent, TeardownEvent::CurrentDb(_)) => true,
        (TeardownState::DroppingDb { .. }, TeardownEvent::StatementOk) => true,
        (TeardownState::QueryingCurrent, TeardownEvent::EngineError(_)) => true,
        (TeardownState::DroppingDb { .. }, TeardownEvent::EngineError(_)) => true,
        _ => false,
    }
}

/// Begin a teardown: first ask the server what is actually bound, rather
/// than trusting any name remembered from setup.
pub fn teardown_start() -> (r: (TeardownState, TeardownAction))
    ensures
        r.0 is QueryingCurrent,
        r.1 is FetchCurrent,
{
    (TeardownState::QueryingCurrent, TeardownAction::FetchCurrent)
}

/// One decision of the teardown protocol. The drop statement is built from
/// the database the server reported — nothing else.
pub fn teardown_step(s: TeardownState, e: TeardownEvent) -> (r: (TeardownState, TeardownAction))
    requires
        teardown_event_fits(s, e),
    ensures
        match (s, e) {
            (TeardownState::QueryingCurrent, TeardownEvent::CurrentDb(db)) => {
                &&& (r.0 matches TeardownState::DroppingDb { target } && target@ == db.name@)
                &&& (r.1 matches TeardownAction::Execute(q) && q@ == drop_db_sql_spec(db.name@))
            },
            (TeardownState::DroppingDb { .. }, TeardownEvent::StatementOk) => {
                &&& r.0 is TornDown
                &&& r.1 is Succeed
            },
            (_, TeardownEvent::EngineError(m)) => {
                &&& r.0 is TeardownFailed
                &&& (r.1 matches TeardownAction::Fail(err) && err is Clickhouse && err.text()
                    == m@)
            },
            _ => true,
        },
{
    match (s, e) {
        (TeardownState::QueryingCurrent, TeardownEvent::CurrentDb(db)) => {
            let q = drop_database_sql(db.name.as_str());
            (TeardownState::DroppingDb { target: db.name }, TeardownAction::Execute(q))
        },
        (TeardownState::DroppingDb { .. }, TeardownEvent::StatementOk) => {
            (TeardownState::TornDown, TeardownAction::Succeed)
        },
        (_, TeardownEvent::EngineError(m)) => {
            (TeardownState::TeardownFailed, TeardownAction::Fail(Error::Clickhouse(m)))
        },
        _ => {
            proof {
                assert(false);
            }
            (TeardownState::TeardownFailed, TeardownAction::FetchCurrent)
        },
    }
}

/// Law: teardown targets the database the server reports as bound, not a
/// remembered name. When the client was rebound after setup, the statement
/// teardown issues is the drop of the newly bound database and of nothing
/// else — in particular not of the name chosen at setup.
pub proof fn lemma_teardown_targets_bound(remembered: Seq<char>, bound: Seq<char>)
    requires
        remembered != bound,
    ensures
        drop_db_sql_spec(bound) != drop_db_sql_spec(remembered),
{
    lemma_drop_sql_injective(bound, remembered);
}

} // verus!
