use clickhouse_testing::migrate::{first_marked, order_migrations};

fn names(ns: &[&str]) -> Vec<String> {
    ns.iter().map(|n| (*n).to_string()).collect()
}

#[test]
fn migration_order_is_lexicographic() {
    let listed = names(&["002_x.sql", "001_y.sql", "010_z.sql"]);
    let ordered = order_migrations(listed);
    assert_eq!(ordered, names(&["001_y.sql", "002_x.sql", "010_z.sql"]));
}

#[test]
fn migration_order_ignores_listing_order() {
    let a = order_migrations(names(&["010_z.sql", "002_x.sql", "001_y.sql"]));
    let b = order_migrations(names(&["001_y.sql", "010_z.sql", "002_x.sql"]));
    assert_eq!(a, b);
}

#[test]
fn only_sql_files_are_kept() {
    let listed = names(&[
        "b.txt",
        "a.sql",
        "c.sq",
        "note.sql.bak",
        ".sql",
        "x.SQL",
        "schema.v2.sql",
    ]);
    let ordered = order_migrations(listed);
    assert_eq!(ordered, names(&["a.sql", "schema.v2.sql"]));
}

#[test]
fn empty_directory_yields_no_migrations() {
    let ordered = order_migrations(names(&[]));
    assert!(ordered.is_empty());
}

#[test]
fn nearest_marked_ancestor_wins() {
    assert_eq!(first_marked(vec![false, true, true]), Some(1));
    assert_eq!(first_marked(vec![true]), Some(0));
}

#[test]
fn missing_marker_is_reported() {
    assert_eq!(first_marked(vec![false, false]), None);
    assert_eq!(first_marked(vec![]), None);
}
