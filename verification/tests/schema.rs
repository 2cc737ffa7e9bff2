use rust_stocks::schema::{
    extract_object_name, generate_drop_statements, remove_sqlx_migrations_table, schema_depths_fit,
};

#[test]
fn object_names() {
    assert_eq!(extract_object_name("CREATE TABLE stocks (id INTEGER)", "CREATE TABLE"), Some("stocks".to_string()));
    assert_eq!(extract_object_name("CREATE TABLE IF NOT EXISTS \"prices\"(x)", "CREATE TABLE"), Some("prices".to_string()));
    assert_eq!(extract_object_name("CREATE VIEW `v_latest` AS SELECT 1", "CREATE VIEW"), Some("v_latest".to_string()));
    assert_eq!(extract_object_name("CREATE TABLE (", "CREATE TABLE"), None);
    assert_eq!(extract_object_name("DROP TABLE x", "CREATE TABLE"), None);
}

#[test]
fn internal_objects_are_removed() {
    let schema = "CREATE TABLE _sqlx_migrations (\n    version BIGINT PRIMARY KEY,\n    description TEXT\n);\nCREATE TABLE stocks (id INTEGER);\nCREATE INDEX sqlite_autoindex_stocks_1 ON stocks(id);\nCREATE TABLE sqlite_sequence(name,seq);\nCREATE INDEX idx_symbol ON stocks(symbol);\n";
    assert_eq!(
        remove_sqlx_migrations_table(schema),
        "CREATE TABLE stocks (id INTEGER);\nCREATE INDEX idx_symbol ON stocks(symbol);\n"
    );
    assert_eq!(remove_sqlx_migrations_table(""), "");
}

#[test]
fn drops_come_indexes_then_views_then_tables() {
    let schema = "CREATE TABLE stocks (id INTEGER);\n  CREATE VIEW v AS SELECT 1;\nCREATE UNIQUE INDEX idx_u ON stocks(id);\nCREATE INDEX IF NOT EXISTS idx_p ON stocks(id);\nCREATE TABLE prices(x);";
    assert_eq!(
        generate_drop_statements(schema).unwrap(),
        "DROP INDEX IF EXISTS idx_u;\nDROP INDEX IF EXISTS idx_p;\nDROP VIEW IF EXISTS v;\nDROP TABLE IF EXISTS stocks;\nDROP TABLE IF EXISTS prices;"
    );
    assert_eq!(generate_drop_statements("").unwrap(), "");
}

#[test]
fn cleaning_twice_is_cleaning_once() {
    let schema = "CREATE TABLE _sqlx_migrations (\r\n  version BIGINT\r\n);\r\nCREATE TABLE stocks (id INTEGER);\r\n\nCREATE INDEX sqlite_autoindex_x_1 ON x(id);\nCREATE VIEW v AS SELECT 1";
    assert!(schema_depths_fit(schema));
    let once = remove_sqlx_migrations_table(schema);
    assert_eq!(once, "CREATE TABLE stocks (id INTEGER);\n\nCREATE VIEW v AS SELECT 1\n");
    assert!(schema_depths_fit(&once));
    assert_eq!(remove_sqlx_migrations_table(&once), once);
}

#[test]
fn depth_check_of_plain_schemas() {
    assert!(schema_depths_fit(""));
    assert!(schema_depths_fit("CREATE TABLE sqlite_sequence(name,seq);\nCREATE TABLE t ((((x))));"));
    assert!(schema_depths_fit("CREATE TABLE _sqlx_migrations ((\n)))))\n);"));
}
