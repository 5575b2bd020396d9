use sqlite_httpfs::storage::{
    escape_sql_string, format_from_upper, get_format, get_storage, split_headers_line,
    storage_from_upper, SQLiteDataTypes, StorageOpts, VTabDataFormats,
};

#[test]
fn test_get_storage_temp_uppercase() {
    let result = get_storage("TEMP");
    assert_eq!(result.unwrap(), StorageOpts::TEMP);
}

#[test]
fn test_get_storage_temp_lowercase() {
    let result = get_storage("temp");
    assert_eq!(result.unwrap(), StorageOpts::TEMP);
}

#[test]
fn test_get_storage_disk_uppercase() {
    let result = get_storage("DISK");
    assert_eq!(result.unwrap(), StorageOpts::DISK);
}

#[test]
fn test_get_storage_disk_mixed_case() {
    let result = get_storage("DisK");
    assert_eq!(result.unwrap(), StorageOpts::DISK);
}

#[test]
fn test_get_storage_invalid() {
    let result = get_storage("mem");
    assert!(result.is_err());
    assert_eq!(
        result.unwrap_err().to_string(),
        "Not a valid storage option: mem"
    );
}

#[test]
fn test_get_storage_empty() {
    let result = get_storage("");
    assert!(result.is_err());
    assert_eq!(
        result.unwrap_err().to_string(),
        "Not a valid storage option: "
    );
}

#[test]
fn test_get_storage_with_whitespace() {
    let result = get_storage(" DISK ");
    assert_eq!(result.unwrap(), StorageOpts::DISK);
}

#[test]
fn test_get_storage_with_newline() {
    let result = get_storage("TEMP\n");
    assert_eq!(result.unwrap(), StorageOpts::TEMP);
}

#[test]
fn test_get_storage_with_tab() {
    let result = get_storage("\tDISK\t");
    assert_eq!(result.unwrap(), StorageOpts::DISK);
}

#[test]
fn test_get_storage_with_carriage_return() {
    let result = get_storage("TEMP\r\n");
    assert_eq!(result.unwrap(), StorageOpts::TEMP);
}

#[test]
fn test_sqlite_data_type_as_str() {
    assert_eq!(SQLiteDataTypes::BLOB.as_str(), "BLOB");
    assert_eq!(SQLiteDataTypes::REAL.as_str(), "REAL");
    assert_eq!(SQLiteDataTypes::INT.as_str(), "INTEGER");
    assert_eq!(SQLiteDataTypes::TEXT.as_str(), "TEXT");
    assert_eq!(SQLiteDataTypes::NULL.as_str(), "NULL");
    assert_eq!(SQLiteDataTypes::NUMERIC.as_str(), "NUMERIC");
}

#[test]
fn fmt_test_get_format_valid() {
    assert_eq!(get_format("csv").unwrap(), VTabDataFormats::CSV);
    assert_eq!(get_format("AVRO").unwrap(), VTabDataFormats::AVRO);
    assert_eq!(get_format("parquet").unwrap(), VTabDataFormats::PARQUET);
    assert_eq!(get_format("JSON").unwrap(), VTabDataFormats::JSON);
    assert_eq!(get_format("jsonl").unwrap(), VTabDataFormats::JSONL);
    assert_eq!(get_format("NDJSON").unwrap(), VTabDataFormats::JSONL);
}

#[test]
fn fmt_test_get_format_invalid() {
    let result = get_format("xml");
    assert!(result.is_err());
    if let Err(e) = result {
        assert_eq!(e.to_string(), "Unknown data format: xml");
    }
}

#[test]
fn storage_test_get_format_valid() {
    assert_eq!(get_format("csv").unwrap(), VTabDataFormats::CSV);
    assert_eq!(get_format("AVRO").unwrap(), VTabDataFormats::AVRO);
    assert_eq!(get_format("parquet").unwrap(), VTabDataFormats::PARQUET);
    assert_eq!(get_format("JSON").unwrap(), VTabDataFormats::JSON);
    assert_eq!(get_format("jsonl").unwrap(), VTabDataFormats::JSONL);
    assert_eq!(get_format("NDJSON").unwrap(), VTabDataFormats::JSONL);
}

#[test]
fn storage_test_get_format_invalid() {
    let result = get_format("xml");
    assert!(result.is_err());
    if let Err(e) = result {
        assert_eq!(e.to_string(), "Unknown data format: xml");
    }
}

#[test]
fn options_chosen_from_upper_case_names() {
    assert_eq!(storage_from_upper("DISK", "disk").unwrap(), StorageOpts::DISK);
    assert_eq!(storage_from_upper("TEMP", " temp").unwrap(), StorageOpts::TEMP);
    assert_eq!(
        storage_from_upper("disk", "disk").unwrap_err().to_string(),
        "Not a valid storage option: disk"
    );
    assert_eq!(format_from_upper("NDJSON", "ndjson").unwrap(), VTabDataFormats::JSONL);
    assert_eq!(
        format_from_upper("csv", "csv").unwrap_err().to_string(),
        "Unknown data format: csv"
    );
}

#[test]
fn format_names_are_not_trimmed() {
    assert!(get_format(" csv").is_err());
    assert_eq!(VTabDataFormats::JSONL.as_str(), "JSONL");
}

#[test]
fn quotes_are_doubled_for_sql() {
    assert_eq!(escape_sql_string("O'Reilly"), "O''Reilly");
    assert_eq!(escape_sql_string("''"), "''''");
    assert_eq!(escape_sql_string("plain"), "plain");
}

#[test]
fn header_line_splits_outside_quotes() {
    assert_eq!(
        split_headers_line("\"a\", \"b, c\" , d"),
        vec!["a".to_string(), "b, c".to_string(), "d".to_string()]
    );
    assert_eq!(split_headers_line("x,y,"), vec!["x".to_string(), "y".to_string()]);
    assert_eq!(split_headers_line(""), Vec::<String>::new());
    assert_eq!(split_headers_line("\"\""), vec!["".to_string()]);
}
