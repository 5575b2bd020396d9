use sqlite_httpfs::any_reader::AnyReader;
use sqlite_httpfs::avro_reader::{convert_avro_value, dtype_from_avro, read_record, AvroDatum, AvroReader};
use sqlite_httpfs::csv_reader::{parse_str_value, rows_from_records, CsvReader};
use sqlite_httpfs::reader::{IterableReader, Reader, ReaderError};
use sqlite_httpfs::schema::{DataType, Schema, SchemaField, TypedValue, ValueLiteral};

const CITIES: &[u8] = b"name,pop,rate,flag\nOslo,700000,1.5,true\nBergen,,2,FALSE\nTromso,77000,x,\n";

#[test]
fn csv_schema_from_all_rows() {
    let r = CsvReader::try_new(CITIES, 100).unwrap();
    assert_eq!(r.column_names(), vec!["name", "pop", "rate", "flag"]);
    assert_eq!(r.total_columns(), 4);
    let types: Vec<DataType> = r.schema().field_types();
    assert_eq!(
        types,
        vec![DataType::Text, DataType::Int, DataType::Text, DataType::Numeric]
    );
    let nullable: Vec<bool> = r.schema().fields.iter().map(|f| f.nullable).collect();
    assert_eq!(nullable, vec![false, true, false, true]);
    assert_eq!(r.total_rows(), 3);
    // field byte lengths: 4+6+3+4, 6+0+1+5, 6+5+1+0
    assert_eq!(r.bytes_read(), 17 + 12 + 12);
    assert_eq!(r.column_types(), vec!["Text", "Int", "Text", "Numeric"]);
    assert_eq!(r.data(), CITIES);
}

#[test]
fn csv_sample_budget_limits_discovery() {
    let r = CsvReader::try_new(CITIES, 1).unwrap();
    assert_eq!(r.total_rows(), 1);
    assert_eq!(
        r.schema().field_types(),
        vec![DataType::Text, DataType::Int, DataType::Real, DataType::Numeric]
    );
    let z = CsvReader::try_new(CITIES, 0).unwrap();
    assert_eq!(z.total_rows(), 0);
    assert_eq!(z.bytes_read(), 0);
    assert_eq!(z.schema().field_types(), vec![DataType::Null; 4]);
}

#[test]
fn csv_rows_are_reparsed_each_time() {
    let r = CsvReader::try_new(CITIES, 1).unwrap();
    let first = r.iter_rows();
    let second = r.iter_rows();
    assert_eq!(first.len(), 3);
    assert_eq!(second.len(), 3);
    let row = first[1].as_ref().unwrap();
    assert_eq!(row.len(), 4);
    assert_eq!(row.values()[1].dtype, DataType::Null);
    assert_eq!(row.values()[2].dtype, DataType::Int);
    // row-time parsing is case-sensitive for booleans
    assert_eq!(row.values()[3].dtype, DataType::Text);
    let row0 = first[0].as_ref().unwrap();
    assert_eq!(row0.values()[3].dtype, DataType::Numeric);
    assert_eq!(row0.values()[3].value.as_boolean(), Some(true));
    assert_eq!(row0.values()[2].value.as_float(), Some("1.5"));
}

#[test]
fn csv_ragged_record_fails_discovery() {
    let data: &[u8] = b"a,b\n1,2\n3\n";
    match CsvReader::try_new(data, 10) {
        Err(ReaderError::Csv(_)) => {}
        _ => panic!("expected a framing error"),
    }
    // outside the sample budget the bad record only fails its own row
    let r = CsvReader::try_new(data, 1).unwrap();
    let rows = r.iter_rows();
    assert!(rows[0].is_ok());
    assert!(matches!(rows[1], Err(ReaderError::Csv(_))));
}

#[test]
fn csv_empty_payload_has_no_columns() {
    let r = CsvReader::try_new(b"", 10).unwrap();
    assert_eq!(r.total_columns(), 0);
    assert_eq!(r.total_rows(), 0);
    assert!(r.iter_rows().is_empty());
}

#[test]
fn field_parsing_order() {
    assert_eq!(parse_str_value("").dtype, DataType::Null);
    assert_eq!(parse_str_value("-12").value.as_int(), Some(-12));
    assert_eq!(parse_str_value("1e3").dtype, DataType::Real);
    assert_eq!(parse_str_value("false").value.as_boolean(), Some(false));
    assert_eq!(parse_str_value("True").dtype, DataType::Text);
    assert_eq!(parse_str_value(" 5").dtype, DataType::Text);
    assert_eq!(parse_str_value("abc").value.as_text(), Some("abc"));
}

#[test]
fn display_form_reads_back_as_same_type() {
    for s in ["42", "-0", "007", "3.25", "1e5", "inf", "true", "false", "hello", "x y"] {
        let v = parse_str_value(s);
        let again = parse_str_value(&v.value.to_display());
        assert_eq!(again.dtype, v.dtype, "{}", s);
    }
    assert_eq!(parse_str_value("007").value.to_display(), "7");
}

#[test]
fn value_display_and_length() {
    assert_eq!(ValueLiteral::Blob(vec![0, 171, 255]).to_display(), "0x00abff");
    assert_eq!(ValueLiteral::Null.to_display(), "NULL");
    assert_eq!(ValueLiteral::Int(i64::MIN).to_display(), "-9223372036854775808");
    assert_eq!(ValueLiteral::Text("héllo".to_string()).len(), 6);
    assert_eq!(ValueLiteral::Int(3).len(), 8);
    assert_eq!(ValueLiteral::Null.len(), 0);
    let tv = TypedValue { dtype: DataType::Int, value: ValueLiteral::Int(5) };
    assert_eq!(tv.to_display(), "5 (INTEGER)");
    let n = TypedValue { dtype: DataType::Null, value: ValueLiteral::Null };
    assert_eq!(n.to_display(), "NULL");
}

#[test]
fn schema_names_and_types() {
    let s = Schema {
        fields: vec![
            SchemaField { name: "a".to_string(), dtype: DataType::Blob, nullable: false },
            SchemaField { name: "b".to_string(), dtype: DataType::Real, nullable: true },
        ],
    };
    assert_eq!(s.field_names(), vec!["a".to_string(), "b".to_string()]);
    assert_eq!(s.field_types(), vec![DataType::Blob, DataType::Real]);
}

fn person(id: i32, name: AvroDatum) -> AvroDatum {
    AvroDatum::Record(vec![("id".to_string(), AvroDatum::Int(id)), ("name".to_string(), name)])
}

#[test]
fn avro_schema_from_first_record() {
    let records = vec![
        person(1, AvroDatum::String("Bob".to_string())),
        person(2, AvroDatum::Null),
    ];
    let r = AvroReader::from_records(b"payload", records).unwrap();
    assert_eq!(r.column_names(), vec!["id", "name"]);
    assert_eq!(r.schema().field_types(), vec![DataType::Int, DataType::Text]);
    assert_eq!(r.column_types(), vec!["INTEGER", "TEXT"]);
    assert_eq!(r.total_rows(), 2);
    assert_eq!(r.bytes_read(), 2 * std::mem::size_of::<AvroDatum>() as u64);
    let rows = r.iter_rows();
    assert_eq!(rows.len(), 2);
    let second = rows[1].as_ref().unwrap();
    assert_eq!(second.values()[1].dtype, DataType::Null);
    assert_eq!(second.values()[0].value.as_int(), Some(2));
}

#[test]
fn avro_without_records_is_invalid() {
    assert!(matches!(
        AvroReader::from_records(b"", vec![]),
        Err(ReaderError::InvalidFormat(_))
    ));
    assert!(matches!(
        AvroReader::from_records(b"", vec![AvroDatum::Long(3)]),
        Err(ReaderError::InvalidFormat(_))
    ));
}

#[test]
fn avro_nested_value_fails_only_its_row() {
    let records = vec![
        person(1, AvroDatum::String("Bob".to_string())),
        person(2, AvroDatum::Array(vec![AvroDatum::Int(1)])),
        person(3, AvroDatum::Union(Box::new(AvroDatum::String("Cy".to_string())))),
    ];
    let r = AvroReader::from_records(b"", records).unwrap();
    let rows = r.iter_rows();
    assert!(rows[0].is_ok());
    assert!(matches!(rows[1], Err(ReaderError::InvalidFormat(_))));
    let third = rows[2].as_ref().unwrap();
    assert_eq!(third.values()[1].value.as_text(), Some("Cy"));
    assert_eq!(third.values()[1].dtype, DataType::Text);
}

#[test]
fn avro_value_conversions() {
    assert_eq!(convert_avro_value(&AvroDatum::TimestampMillis(5)).unwrap().as_int(), Some(5));
    assert_eq!(convert_avro_value(&AvroDatum::Date(-3)).unwrap().as_int(), Some(-3));
    assert_eq!(
        convert_avro_value(&AvroDatum::Fixed(2, vec![1, 2])).unwrap().as_blob(),
        Some(&[1u8, 2][..])
    );
    assert_eq!(
        convert_avro_value(&AvroDatum::Double("2.5".to_string())).unwrap().as_float(),
        Some("2.5")
    );
    assert_eq!(
        convert_avro_value(&AvroDatum::Enum(1, "RED".to_string())).unwrap().as_text(),
        Some("RED")
    );
    assert!(convert_avro_value(&AvroDatum::Decimal(None)).is_err());
    assert!(convert_avro_value(&AvroDatum::Mapping(vec![])).is_err());
    assert!(convert_avro_value(&AvroDatum::Record(vec![])).is_err());
    assert_eq!(dtype_from_avro(&AvroDatum::Boolean(true)), DataType::Numeric);
    assert_eq!(dtype_from_avro(&AvroDatum::Duration(vec![0; 12])), DataType::Blob);
    assert_eq!(
        dtype_from_avro(&AvroDatum::Union(Box::new(AvroDatum::Float("1".to_string())))),
        DataType::Real
    );
    assert!(read_record(&AvroDatum::Int(1)).is_err());
}

#[test]
fn any_reader_dispatches_to_its_format() {
    let readers = vec![
        AnyReader::Csv(CsvReader::try_new(b"id,name\n1,Bob\n", 10).unwrap()),
        AnyReader::Avro(
            AvroReader::from_records(b"", vec![person(1, AvroDatum::String("Bob".to_string()))])
                .unwrap(),
        ),
    ];
    for r in &readers {
        assert_eq!(r.column_names(), vec!["id", "name"]);
        assert_eq!(r.schema().field_types(), vec![DataType::Int, DataType::Text]);
        assert_eq!(r.total_rows(), 1);
        let rows = r.iter_rows();
        assert_eq!(rows.len(), 1);
        assert_eq!(rows[0].as_ref().unwrap().values()[1].value.as_text(), Some("Bob"));
    }
}

fn rec(fields: &[&str]) -> Result<Vec<String>, String> {
    Ok(fields.iter().map(|s| s.to_string()).collect())
}

#[test]
fn discovery_over_given_records() {
    let recs = vec![rec(&["a", "b"]), rec(&["1", " "]), rec(&["x", "2"]), Err("bad".to_string())];
    let r = CsvReader::from_records(b"", &recs, 2).unwrap();
    assert_eq!(r.schema().field_types(), vec![DataType::Text, DataType::Int]);
    assert_eq!(r.schema().fields[1].nullable, true);
    assert_eq!(r.schema().fields[0].nullable, false);
    assert_eq!(r.total_rows(), 2);
    assert_eq!(r.bytes_read(), 1 + 1 + 1 + 1);
    assert!(matches!(CsvReader::from_records(b"", &recs, 3), Err(ReaderError::Csv(_))));
    assert!(matches!(
        CsvReader::from_records(b"", &vec![Err("h".to_string())], 3),
        Err(ReaderError::Csv(_))
    ));
    let rows = rows_from_records(&recs);
    assert_eq!(rows.len(), 3);
    assert_eq!(rows[0].as_ref().unwrap().values()[1].value.as_text(), Some(" "));
    assert!(matches!(rows[2], Err(ReaderError::Csv(_))));
}

#[test]
fn schema_tree_lists_columns() {
    let r = CsvReader::try_new(b"a,b\n1,\n", 10).unwrap();
    assert_eq!(
        r.schema().tree(),
        "root\n |-- a: Int (nullable = false)\n |-- b: Null (nullable = true)\n"
    );
}
