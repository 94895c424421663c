//! The statements this library sends to the database engine. Four catalog
//! operations are the entire wire-level contract the lifecycle depends on:
//! list all databases, report the bound database, create a database if it
//! does not exist, and drop a database.

use vstd::prelude::*;

verus! {

pub open spec fn create_db_sql_spec(name: Seq<char>) -> Seq<char> {
    "CREATE DATABASE IF NOT EXISTS "@ + name
}

pub open spec fn drop_db_sql_spec(name: Seq<char>) -> Seq<char> {
    "DROP DATABASE "@ + name
}

pub open spec fn list_databases_sql_spec() -> Seq<char> {
    "SELECT name FROM system.databases"@
}

pub open spec fn current_database_sql_spec() -> Seq<char> {
    "SELECT currentDatabase() AS name"@
}

/// The idempotent creation statement for a disposable database. "If not
/// exists" keeps the race between two concurrent setups of one identifier
/// harmless rather than fatal.
pub fn create_database_sql(name: &str) -> (r: String)
    ensures
        r@ == create_db_sql_spec(name@),
{
    let mut s = String::from_str("CREATE DATABASE IF NOT EXISTS ");
    s.append(name);
    s
}

/// The unconditional drop of a database, by name.
pub fn drop_database_sql(name: &str) -> (r: String)
    ensures
        r@ == drop_db_sql_spec(name@),
{
    let mut s = String::from_str("DROP DATABASE ");
    s.append(name);
    s
}

/// The catalog query that lists every database on the server.
pub fn list_databases_sql() -> (r: String)
    ensures
        r@ == list_databases_sql_spec(),
{
    String::from_str("SELECT name FROM system.databases")
}

/// The query that asks the server which database this connection is bound
/// to — the server's answer, not a remembered name, is what teardown drops.
pub fn current_database_sql() -> (r: String)
    ensures
        r@ == current_database_sql_spec(),
{
    String::from_str("SELECT currentDatabase() AS name")
}

/// Two drop statements coincide exactly when they target the same database.
pub proof fn lemma_drop_sql_injective(a: Seq<char>, b: Seq<char>)
    ensures
        (drop_db_sql_spec(a) == drop_db_sql_spec(b)) == (a == b),
{
    if drop_db_sql_spec(a) == drop_db_sql_spec(b) {
        let p = "DROP DATABASE "@;
        assert(drop_db_sql_spec(a).skip(p.len() as int) =~= a);
        assert(drop_db_sql_spec(b).skip(p.len() as int) =~= b);
    }
}

} // verus!
