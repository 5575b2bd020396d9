//! One reader type over the closed set of formats, so that callers need not
//! know which format they hold.
use vstd::prelude::*;
use crate::avro_reader::AvroReader;
use crate::csv_reader::CsvReader;
use crate::reader::{IterableReader, Reader, ReaderError, Row};
use crate::schema::{DataType, Schema};

verus! {

pub enum AnyReader<'a> {
    Csv(CsvReader<'a>),
    Avro(AvroReader<'a>),
}

impl<'a> Reader for AnyReader<'a> {
    open spec fn spec_schema(&self) -> Schema {
        match self {
            AnyReader::Csv(r) => r.spec_schema(),
            AnyReader::Avro(r) => r.spec_schema(),
        }
    }

    open spec fn spec_data(&self) -> Seq<u8> {
        match self {
            AnyReader::Csv(r) => r.spec_data(),
            AnyReader::Avro(r) => r.spec_data(),
        }
    }

    open spec fn spec_bytes_read(&self) -> u64 {
        match self {
            AnyReader::Csv(r) => r.spec_bytes_read(),
            AnyReader::Avro(r) => r.spec_bytes_read(),
        }
    }

    open spec fn spec_total_rows(&self) -> u128 {
        match self {
            AnyReader::Csv(r) => r.spec_total_rows(),
            AnyReader::Avro(r) => r.spec_total_rows(),
        }
    }

    open spec fn dtype_label(&self, t: DataType) -> Seq<char> {
        match self {
            AnyReader::Csv(r) => r.dtype_label(t),
            AnyReader::Avro(r) => r.dtype_label(t),
        }
    }

    fn schema(&self) -> (r: &Schema) {
        match self {
            AnyReader::Csv(r) => r.schema(),
            AnyReader::Avro(r) => r.schema(),
        }
    }

    fn data(&self) -> (r: &[u8]) {
        match self {
            AnyReader::Csv(r) => r.data(),
            AnyReader::Avro(r) => r.data(),
        }
    }

    fn bytes_read(&self) -> (r: u64) {
        match self {
            AnyReader::Csv(r) => r.bytes_read(),
            AnyReader::Avro(r) => r.bytes_read(),
        }
    }

    fn total_rows(&self) -> (r: u128) {
        match self {
            AnyReader::Csv(r) => r.total_rows(),
            AnyReader::Avro(r) => r.total_rows(),
        }
    }

    fn column_names(&self) -> (r: Vec<&str>) {
        match self {
            AnyReader::Csv(r) => r.column_names(),
            AnyReader::Avro(r) => r.column_names(),
        }
    }

    fn column_types(&self) -> (r: Vec<String>) {
        match self {
            AnyReader::Csv(r) => r.column_types(),
            AnyReader::Avro(r) => r.column_types(),
        }
    }

    fn total_columns(&self) -> (r: usize) {
        match self {
            AnyReader::Csv(r) => r.total_columns(),
            AnyReader::Avro(r) => r.total_columns(),
        }
    }
}

impl<'a> IterableReader for AnyReader<'a> {
    open spec fn spec_rows(&self, rows: Seq<Result<Row, ReaderError>>) -> bool {
        match self {
            AnyReader::Csv(r) => r.spec_rows(rows),
            AnyReader::Avro(r) => r.spec_rows(rows),
        }
    }

    fn iter_rows(&self) -> (r: Vec<Result<Row, ReaderError>>) {
        match self {
            AnyReader::Csv(r) => r.iter_rows(),
            AnyReader::Avro(r) => r.iter_rows(),
        }
    }
}

} // verus!
