//! The connection handle of the underlying wire client, built from a
//! resolved configuration. Construction is pure: no connection is probed,
//! failure is deferred to first use.

use vstd::prelude::*;
use crate::config::ClickhouseConfig;

verus! {

#[verifier::external_type_specification]
#[verifier::external_body]
pub struct ExClient(clickhouse::Client);

/// Relies on clickhouse's client builder: `Client::default()` yields a
/// credentials-authenticated client, and `with_url`, `with_database`,
/// `with_user` and `with_password` set its connection parameters. The four
/// calls stand together in one body because `with_user` and `with_password`
/// panic only on a token-authenticated client, which `Client::default()`
/// never produces.
#[verifier::external_body]
fn build_client(url: &str, db: &str, user: &str, password: &str) -> clickhouse::Client {
    clickhouse::Client::default()
        .with_url(url)
        .with_database(db)
        .with_user(user)
        .with_password(password)
}

/// Build a client handle authenticated and scoped to the configured default
/// database.
pub fn create_client(config: &ClickhouseConfig) -> clickhouse::Client {
    build_client(
        config.url.as_str(),
        config.db.as_str(),
        config.user.as_str(),
        config.password.as_str(),
    )
}

} // verus!
