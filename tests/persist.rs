use sqlite_httpfs::persist::{
    columns_def, create_data_table_sql, create_metadata_sql, df_value_to_sqlite_value,
    generate_inserts_from_dataframe, has_metadata_sql, header_line, insert_metadata_sql,
    select_data_sql, select_headers_sql, should_fetch, INSERT_BATCH_SIZE,
};
use sqlite_httpfs::reader::Row;
use sqlite_httpfs::schema::{DataType, TypedValue, ValueLiteral};

fn row(id: i64, name: &str) -> Row {
    Row(vec![
        TypedValue { dtype: DataType::Int, value: ValueLiteral::Int(id) },
        TypedValue { dtype: DataType::Text, value: ValueLiteral::Text(name.to_string()) },
    ])
}

#[test]
fn fetch_only_on_first_creation_without_copy() {
    assert!(should_fetch(true, false));
    assert!(!should_fetch(true, true));
    assert!(!should_fetch(false, false));
    assert!(!should_fetch(false, true));
}

#[test]
fn sql_literals() {
    assert_eq!(df_value_to_sqlite_value(&ValueLiteral::Null), "NULL");
    assert_eq!(df_value_to_sqlite_value(&ValueLiteral::Text("hello".into())), "'hello'");
    assert_eq!(df_value_to_sqlite_value(&ValueLiteral::Text("O'Reilly".into())), "'O''Reilly'");
    assert_eq!(df_value_to_sqlite_value(&ValueLiteral::Boolean(true)), "1");
    assert_eq!(df_value_to_sqlite_value(&ValueLiteral::Boolean(false)), "0");
    assert_eq!(df_value_to_sqlite_value(&ValueLiteral::Int(-64)), "-64");
    assert_eq!(df_value_to_sqlite_value(&ValueLiteral::Float("4.56".into())), "4.56");
    assert_eq!(df_value_to_sqlite_value(&ValueLiteral::Blob(vec![1, 2])), "'0x0102'");
}

#[test]
fn schema_statements() {
    let names = vec!["id".to_string(), "name".to_string()];
    assert_eq!(header_line(&names), "\"id\", \"name\"");
    let defs = columns_def(&names, &vec![DataType::Int, DataType::Text]);
    assert_eq!(defs, "\"id\" INTEGER, \"name\" TEXT");
    assert_eq!(
        create_data_table_sql("httpfs", "t", &defs),
        "CREATE TABLE \"httpfs.t_data\" (\"id\" INTEGER, \"name\" TEXT);"
    );
    assert_eq!(
        create_metadata_sql("m", "t"),
        "CREATE TABLE \"m.t_metadata\" (URL TEXT, FORMAT TEXT, HEADERS TEXT, COLUMN_TYPES TEXT);"
    );
    assert_eq!(
        insert_metadata_sql("m", "t", "http://x", "CSV", "\"a\"", "TEXT"),
        "INSERT INTO\"m.t_metadata\" (URL, FORMAT, HEADERS, COLUMN_TYPES) VALUES ('http://x', 'CSV', '\"a\"', 'TEXT');"
    );
    assert_eq!(select_headers_sql("m", "t"), "SELECT HEADERS FROM \"m.t_metadata\";");
    assert_eq!(select_data_sql("m", "t"), "SELECT * FROM  \"m.t_data\";");
    assert_eq!(
        has_metadata_sql("m.t_metadata"),
        "SELECT name FROM sqlite_master WHERE type = 'table' AND name = 'm.t_metadata';"
    );
}

#[test]
fn inserts_are_batched() {
    let rows = vec![row(1, "a"), row(2, "b'c"), row(3, "d")];
    let stmts = generate_inserts_from_dataframe(&rows, "m", "t", "\"id\", \"name\"", 2);
    assert_eq!(
        stmts,
        vec![
            "INSERT INTO \"m.t_data\" (\"id\", \"name\") VALUES\n(1, 'a'),\n(2, 'b''c');".to_string(),
            "INSERT INTO \"m.t_data\" (\"id\", \"name\") VALUES\n(3, 'd');".to_string(),
        ]
    );
    assert!(generate_inserts_from_dataframe(&vec![], "m", "t", "", INSERT_BATCH_SIZE).is_empty());
    let many: Vec<Row> = (0..2500).map(|i| row(i, "x")).collect();
    assert_eq!(generate_inserts_from_dataframe(&many, "m", "t", "", INSERT_BATCH_SIZE).len(), 3);
}

#[test]
fn stored_type_names_read_back() {
    for t in [DataType::Null, DataType::Int, DataType::Real, DataType::Text, DataType::Numeric, DataType::Blob] {
        assert_eq!(DataType::from_sql_name(t.as_str()), Some(t));
    }
    assert_eq!(DataType::from_sql_name("integer"), None);
    assert_eq!(
        sqlite_httpfs::persist::select_column_types_sql("m", "t"),
        "SELECT COLUMN_TYPES FROM \"m.t_metadata\";"
    );
}
