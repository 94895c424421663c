use clickhouse_testing::Database;
use clickhouse_testing::name::{format_version, make_db_prefix, next_db_version};

fn dbs(names: &[&str]) -> Vec<Database> {
    names.iter().map(|n| Database { name: (*n).to_string() }).collect()
}

#[test]
fn naming_starts_at_one() {
    let existing = dbs(&[]);
    assert_eq!(next_db_version(&existing, "orders"), "test_db_orders_1");
}

#[test]
fn naming_is_monotonic() {
    let existing = dbs(&[
        "test_db_orders_1",
        "test_db_orders_7",
        "test_db_orders_3",
        "default",
        "system",
    ]);
    assert_eq!(next_db_version(&existing, "orders"), "test_db_orders_8");
}

#[test]
fn other_identifiers_are_isolated() {
    let existing = dbs(&[
        "test_db_other_5",
        "some_db",
        "test_db_orders_2",
        "test_db_orders_extra_9",
    ]);
    assert_eq!(next_db_version(&existing, "orders"), "test_db_orders_3");
}

#[test]
fn malformed_suffix_is_ignored() {
    let existing = dbs(&["test_db_orders_abc", "test_db_orders_", "test_db_orders_1x"]);
    assert_eq!(next_db_version(&existing, "orders"), "test_db_orders_1");
}

#[test]
fn plus_prefixed_suffix_parses_like_an_integer() {
    let existing = dbs(&["test_db_orders_+5"]);
    assert_eq!(next_db_version(&existing, "orders"), "test_db_orders_6");
}

#[test]
fn leading_zeros_parse() {
    let existing = dbs(&["test_db_orders_007"]);
    assert_eq!(next_db_version(&existing, "orders"), "test_db_orders_8");
}

#[test]
fn huge_suffixes_are_ignored() {
    // far beyond what a 64-bit version can hold: not a version, so ignored
    let existing = dbs(&["test_db_orders_99999999999999999999999999"]);
    assert_eq!(next_db_version(&existing, "orders"), "test_db_orders_1");
}

#[test]
fn prefix_is_exact() {
    assert_eq!(make_db_prefix("orders"), "test_db_orders_");
    assert_eq!(make_db_prefix(""), "test_db__");
}

#[test]
fn versions_format_in_decimal() {
    assert_eq!(format_version(1), "1");
    assert_eq!(format_version(10), "10");
    assert_eq!(format_version(1234567890), "1234567890");
    assert_eq!(format_version(u64::MAX), "18446744073709551615");
}

#[test]
fn identifier_with_underscores() {
    let existing = dbs(&["test_db_a_b_2", "test_db_a_5"]);
    assert_eq!(next_db_version(&existing, "a_b"), "test_db_a_b_3");
    assert_eq!(next_db_version(&existing, "a"), "test_db_a_6");
}
