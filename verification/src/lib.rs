use vstd::prelude::*;

pub mod client;
pub mod config;
pub mod lifecycle;
pub mod migrate;
pub mod name;
pub mod run;
pub mod sql;

pub use crate::name::next_db_version;

verus! {

/// A row of the server's catalog of databases: one database, by name.
/// Reconstructed fresh from a catalog listing on every setup; never cached.
pub struct Database {
    pub name: String,
}

/// The errors this library reports, one variant per class of failure.
/// Each carries a human-readable description of the underlying cause.
pub enum Error {
    /// A filesystem failure, e.g. while reading migration files.
    Io(String),
    /// A required environment value was missing or unreadable.
    Env(String),
    /// A failure reported by the database engine.
    Clickhouse(String),
    /// A failure while applying migrations, kept distinct from catalog
    /// and creation failures so setup problems are diagnosable.
    Migration(String),
}

impl Error {
    /// The text carried by the error, whatever its variant.
    pub open spec fn text(&self) -> Seq<char> {
        match self {
            Error::Io(s) => s@,
            Error::Env(s) => s@,
            Error::Clickhouse(s) => s@,
            Error::Migration(s) => s@,
        }
    }

    /// Hand out the carried text.
    pub fn into_text(self) -> (r: String)
        ensures
            r@ == self.text(),
    {
        match self {
            Error::Io(s) => s,
            Error::Env(s) => s,
            Error::Clickhouse(s) => s,
            Error::Migration(s) => s,
        }
    }
}

} // verus!
