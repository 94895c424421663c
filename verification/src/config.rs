//! Connection configuration, resolved once per test setup.
//!
//! The values come from the environment; each is optional and falls back to
//! a documented default. Resolution itself is pure: the caller hands in
//! whatever the environment held, and this module applies the defaults.

use vstd::prelude::*;

verus! {

/// The parameters of a connection to the database server. Immutable once
/// resolved; built fresh for every test setup.
pub struct ClickhouseConfig {
    pub url: String,
    pub db: String,
    pub user: String,
    pub password: String,
}

pub open spec fn default_url() -> Seq<char> {
    "http://localhost:8123"@
}

pub open spec fn default_db() -> Seq<char> {
    "default"@
}

pub open spec fn default_user() -> Seq<char> {
    "default"@
}

pub open spec fn default_password() -> Seq<char> {
    ""@
}

/// The value an environment variable resolves to: what the environment
/// held, or the fallback when it held nothing.
pub open spec fn resolved(v: Option<String>, fallback: Seq<char>) -> Seq<char> {
    match v {
        Some(s) => s@,
        None => fallback,
    }
}

fn or_default(v: Option<String>, fallback: &str) -> (r: String)
    ensures
        r@ == resolved(v, fallback@),
{
    match v {
        Some(s) => s,
        None => String::from_str(fallback),
    }
}

/// Apply the documented fallbacks: a local default endpoint, the
/// conventional default database and user, and an empty password. Each
/// argument is the environment's value for that parameter, if it had one.
pub fn resolve_config(
    url: Option<String>,
    db: Option<String>,
    user: Option<String>,
    password: Option<String>,
) -> (c: ClickhouseConfig)
    ensures
        c.url@ == resolved(url, default_url()),
        c.db@ == resolved(db, default_db()),
        c.user@ == resolved(user, default_user()),
        c.password@ == resolved(password, default_password()),
{
    ClickhouseConfig {
        url: or_default(url, "http://localhost:8123"),
        db: or_default(db, "default"),
        user: or_default(user, "default"),
        password: or_default(password, ""),
    }
}

} // verus!
