use clickhouse_testing::config::resolve_config;
use clickhouse_testing::sql::{
    create_database_sql, current_database_sql, drop_database_sql, list_databases_sql,
};

#[test]
fn defaults_apply_when_environment_is_empty() {
    let c = resolve_config(None, None, None, None);
    assert_eq!(c.url, "http://localhost:8123");
    assert_eq!(c.db, "default");
    assert_eq!(c.user, "default");
    assert_eq!(c.password, "");
}

#[test]
fn environment_values_win_over_defaults() {
    let c = resolve_config(
        Some("http://db.example:9000".to_string()),
        Some("analytics".to_string()),
        Some("tester".to_string()),
        Some("pw".to_string()),
    );
    assert_eq!(c.url, "http://db.example:9000");
    assert_eq!(c.db, "analytics");
    assert_eq!(c.user, "tester");
    assert_eq!(c.password, "pw");
}

#[test]
fn catalog_statements_are_exact() {
    assert_eq!(list_databases_sql(), "SELECT name FROM system.databases");
    assert_eq!(current_database_sql(), "SELECT currentDatabase() AS name");
    assert_eq!(
        create_database_sql("test_db_orders_1"),
        "CREATE DATABASE IF NOT EXISTS test_db_orders_1"
    );
    assert_eq!(drop_database_sql("test_db_orders_1"), "DROP DATABASE test_db_orders_1");
}
