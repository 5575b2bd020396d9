//! The self-describing binary reader: records decoded up front, a schema
//! taken from the first record, and rows replayed from memory.
use vstd::prelude::*;
use vstd::string::StringExecFns;
use crate::csv_reader::capped;
use crate::reader::{names_of, IterableReader, Reader, ReaderError, Row};
use crate::schema::{DataType, Schema, SchemaField, TypedValue, ValueLiteral};

verus! {

/// One decoded value of the binary format. Floating-point values are held
/// as their decimal text.
#[derive(Debug)]
pub enum AvroDatum {
    Null,
    Boolean(bool),
    Int(i32),
    Long(i64),
    Float(String),
    Double(String),
    Bytes(Vec<u8>),
    String(String),
    Fixed(usize, Vec<u8>),
    Enum(i32, String),
    Union(Box<AvroDatum>),
    Array(Vec<AvroDatum>),
    Mapping(Vec<(String, AvroDatum)>),
    Record(Vec<(String, AvroDatum)>),
    Date(i32),
    /// The decimal's two's-complement bytes, or `None` where they could not
    /// be had.
    Decimal(Option<Vec<u8>>),
    TimeMillis(i32),
    TimeMicros(i64),
    TimestampMillis(i64),
    TimestampMicros(i64),
    /// The twelve bytes of months, days and milliseconds.
    Duration(Vec<u8>),
    Uuid(String),
}

/// The column type a value stands for: integers and times are integers,
/// floats are reals, text and names are text, bytes are blobs, a union is
/// what it holds, and nested aggregates are text.
pub open spec fn datum_type(v: AvroDatum) -> DataType
    decreases v,
{
    match v {
        AvroDatum::Null => DataType::Null,
        AvroDatum::Boolean(_) => DataType::Numeric,
        AvroDatum::Int(_) | AvroDatum::Long(_) | AvroDatum::Date(_) | AvroDatum::TimeMillis(_)
        | AvroDatum::TimeMicros(_) | AvroDatum::TimestampMillis(_) | AvroDatum::TimestampMicros(
            _,
        ) => DataType::Int,
        AvroDatum::Float(_) | AvroDatum::Double(_) => DataType::Real,
        AvroDatum::String(_) | AvroDatum::Enum(_, _) | AvroDatum::Uuid(_) => DataType::Text,
        AvroDatum::Bytes(_) | AvroDatum::Fixed(_, _) | AvroDatum::Decimal(_)
        | AvroDatum::Duration(_) => DataType::Blob,
        AvroDatum::Union(inner) => datum_type(*inner),
        AvroDatum::Array(_) | AvroDatum::Mapping(_) | AvroDatum::Record(_) => DataType::Text,
    }
}

/// Whether `lit` is the literal that `v` converts to; `false` for every
/// literal when `v` cannot be converted.
pub open spec fn converts_to(v: AvroDatum, lit: ValueLiteral) -> bool
    decreases v,
{
    match v {
        AvroDatum::Null => lit is Null,
        AvroDatum::Boolean(b) => lit == ValueLiteral::Boolean(b),
        AvroDatum::Int(i) => lit == ValueLiteral::Int(i as i64),
        AvroDatum::Long(i) => lit == ValueLiteral::Int(i),
        AvroDatum::Date(i) => lit == ValueLiteral::Int(i as i64),
        AvroDatum::TimeMillis(i) => lit == ValueLiteral::Int(i as i64),
        AvroDatum::TimeMicros(i) => lit == ValueLiteral::Int(i),
        AvroDatum::TimestampMillis(i) => lit == ValueLiteral::Int(i),
        AvroDatum::TimestampMicros(i) => lit == ValueLiteral::Int(i),
        AvroDatum::Float(s) => lit is Float && lit->Float_0@ == s@,
        AvroDatum::Double(s) => lit is Float && lit->Float_0@ == s@,
        AvroDatum::Bytes(b) => lit is Blob && lit->Blob_0@ == b@,
        AvroDatum::Fixed(_, b) => lit is Blob && lit->Blob_0@ == b@,
        AvroDatum::Duration(b) => lit is Blob && lit->Blob_0@ == b@,
        AvroDatum::Decimal(d) => d is Some && lit is Blob && lit->Blob_0@ == d->0@,
        AvroDatum::String(s) => lit is Text && lit->Text_0@ == s@,
        AvroDatum::Enum(_, s) => lit is Text && lit->Text_0@ == s@,
        AvroDatum::Uuid(s) => lit is Text && lit->Text_0@ == s@,
        AvroDatum::Union(inner) => converts_to(*inner, lit),
        AvroDatum::Array(_) | AvroDatum::Mapping(_) | AvroDatum::Record(_) => false,
    }
}

/// Whether `v` can be converted: anything but a nested aggregate or a
/// decimal without bytes, looking through unions.
pub open spec fn convertible(v: AvroDatum) -> bool
    decreases v,
{
    match v {
        AvroDatum::Union(inner) => convertible(*inner),
        AvroDatum::Array(_) | AvroDatum::Mapping(_) | AvroDatum::Record(_) => false,
        AvroDatum::Decimal(d) => d is Some,
        _ => true,
    }
}

/// The column type of a value.
pub fn dtype_from_avro(v: &AvroDatum) -> (r: DataType)
    ensures
        r == datum_type(*v),
    decreases v,
{
    match v {
        AvroDatum::Null => DataType::Null,
        AvroDatum::Boolean(_) => DataType::Numeric,
        AvroDatum::Int(_) | AvroDatum::Long(_) | AvroDatum::Date(_) | AvroDatum::TimeMillis(_)
        | AvroDatum::TimeMicros(_) | AvroDatum::TimestampMillis(_) | AvroDatum::TimestampMicros(
            _,
        ) => DataType::Int,
        AvroDatum::Float(_) | AvroDatum::Double(_) => DataType::Real,
        AvroDatum::String(_) | AvroDatum::Enum(_, _) | AvroDatum::Uuid(_) => DataType::Text,
        AvroDatum::Bytes(_) | AvroDatum::Fixed(_, _) | AvroDatum::Decimal(_)
        | AvroDatum::Duration(_) => DataType::Blob,
        AvroDatum::Union(inner) => dtype_from_avro(inner),
        AvroDatum::Array(_) | AvroDatum::Mapping(_) | AvroDatum::Record(_) => DataType::Text,
    }
}

fn copy_bytes(b: &Vec<u8>) -> (r: Vec<u8>)
    ensures
        r@ == b@,
{
    let mut out: Vec<u8> = Vec::new();
    let mut i: usize = 0;
    while i < b.len()
        invariant
            i <= b.len(),
            out@ == b@.take(i as int),
        decreases b.len() - i,
    {
        out.push(b[i]);
        assert(b@.take(i + 1) == b@.take(i as int).push(b@[i as int]));
        i = i + 1;
    }
    assert(b@.take(b.len() as int) == b@);
    out
}

/// Converts a value to a literal. A nested aggregate fails with
/// `InvalidFormat` rather than being rendered as text.
pub fn convert_avro_value(value: &AvroDatum) -> (r: Result<ValueLiteral, ReaderError>)
    ensures
        r is Ok <==> convertible(*value),
        r is Ok ==> converts_to(*value, r->Ok_0),
        r is Err ==> r->Err_0 is InvalidFormat,
    decreases value,
{
    match value {
        AvroDatum::Null => Ok(ValueLiteral::Null),
        AvroDatum::Boolean(b) => Ok(ValueLiteral::Boolean(*b)),
        AvroDatum::Int(i) => Ok(ValueLiteral::Int(*i as i64)),
        AvroDatum::Long(i) => Ok(ValueLiteral::Int(*i)),
        AvroDatum::TimeMillis(i) => Ok(ValueLiteral::Int(*i as i64)),
        AvroDatum::TimeMicros(i) => Ok(ValueLiteral::Int(*i)),
        AvroDatum::Date(i) => Ok(ValueLiteral::Int(*i as i64)),
        AvroDatum::TimestampMillis(i) => Ok(ValueLiteral::Int(*i)),
        AvroDatum::TimestampMicros(i) => Ok(ValueLiteral::Int(*i)),
        AvroDatum::Duration(b) => Ok(ValueLiteral::Blob(copy_bytes(b))),
        AvroDatum::Float(s) => Ok(ValueLiteral::Float(s.clone())),
        AvroDatum::Double(s) => Ok(ValueLiteral::Float(s.clone())),
        AvroDatum::Decimal(d) => match d {
            Some(b) => Ok(ValueLiteral::Blob(copy_bytes(b))),
            None => Err(
                ReaderError::InvalidFormat(String::from_str("Decimal has no byte representation")),
            ),
        },
        AvroDatum::Bytes(b) => Ok(ValueLiteral::Blob(copy_bytes(b))),
        AvroDatum::Fixed(_, b) => Ok(ValueLiteral::Blob(copy_bytes(b))),
        AvroDatum::String(s) => Ok(ValueLiteral::Text(s.clone())),
        AvroDatum::Enum(_, s) => Ok(ValueLiteral::Text(s.clone())),
        AvroDatum::Uuid(s) => Ok(ValueLiteral::Text(s.clone())),
        AvroDatum::Union(inner) => convert_avro_value(inner),
        AvroDatum::Array(_) | AvroDatum::Mapping(_) | AvroDatum::Record(_) => Err(
            ReaderError::InvalidFormat(String::from_str("Complex types not supported")),
        ),
    }
}

/// The row that a record's fields convert to, field by field.
pub open spec fn converted_row(fs: Seq<(String, AvroDatum)>, row: Row) -> bool {
    &&& row.0.len() == fs.len()
    &&& forall|j: int|
        0 <= j < fs.len() ==> {
            &&& (#[trigger] row.0[j]).dtype == datum_type(fs[j].1)
            &&& converts_to(fs[j].1, row.0[j].value)
        }
}

/// What reading one decoded record gives: its row when it is a record whose
/// fields all convert, else an `InvalidFormat` error.
pub open spec fn record_read(v: AvroDatum, r: Result<Row, ReaderError>) -> bool {
    match v {
        AvroDatum::Record(fs) => if forall|j: int| 0 <= j < fs.len() ==> convertible(#[trigger] fs@[j].1) {
            r is Ok && converted_row(fs@, r->Ok_0)
        } else {
            r is Err && r->Err_0 is InvalidFormat
        },
        _ => r is Err && r->Err_0 is InvalidFormat,
    }
}

/// Reads one decoded record as a row.
pub fn read_record(value: &AvroDatum) -> (r: Result<Row, ReaderError>)
    ensures
        record_read(*value, r),
{
    match value {
        AvroDatum::Record(fields) => {
            let mut out: Vec<TypedValue> = Vec::new();
            let mut j: usize = 0;
            while j < fields.len()
                invariant
                    j <= fields.len(),
                    out.len() == j,
                    (*value) is Record && (*value)->Record_0 == *fields,
                    forall|k: int| 0 <= k < j ==> convertible(#[trigger] fields@[k].1),
                    forall|k: int|
                        0 <= k < j ==> {
                            &&& (#[trigger] out[k]).dtype == datum_type(fields@[k].1)
                            &&& converts_to(fields@[k].1, out[k].value)
                        },
                decreases fields.len() - j,
            {
                let v = &fields[j].1;
                let dtype = dtype_from_avro(v);
                match convert_avro_value(v) {
                    Ok(lit) => out.push(TypedValue { dtype, value: lit }),
                    Err(e) => {
                        assert(!convertible(fields@[j as int].1));
                        return Err(e);
                    },
                }
                j = j + 1;
            }
            Ok(Row(out))
        },
        _ => Err(ReaderError::InvalidFormat(String::from_str("Expected record"))),
    }
}

/// A binary source, decoded into memory, with the schema of its first
/// record.
pub struct AvroReader<'a> {
    pub data: &'a [u8],
    pub schema: Schema,
    pub bytes_read: u64,
    pub total_rows: u128,
    pub records: Vec<AvroDatum>,
}

/// The schema of a first record: a column per field, typed by the field's
/// value, nullable when that value is null.
pub open spec fn record_schema(fs: Seq<(String, AvroDatum)>, schema: Schema) -> bool {
    &&& schema.fields.len() == fs.len()
    &&& forall|j: int|
        0 <= j < fs.len() ==> {
            &&& (#[trigger] schema.fields[j]).name@ == fs[j].0@
            &&& schema.fields[j].dtype == datum_type(fs[j].1)
            &&& schema.fields[j].nullable == (fs[j].1 is Null)
        }
}

impl<'a> AvroReader<'a> {
    /// Builds the reader over the records decoded from `data`. Fails with
    /// `InvalidFormat` when there is no record or the first is not a record;
    /// later records are not checked against the schema.
    pub fn from_records(data: &'a [u8], records: Vec<AvroDatum>) -> (r: Result<
        AvroReader<'a>,
        ReaderError,
    >)
        ensures
            r is Err <==> (records.len() == 0 || !(records[0] is Record)),
            r is Err ==> r->Err_0 is InvalidFormat,
            r is Ok ==> {
                let rd = r->Ok_0;
                &&& rd.data@ == data@
                &&& rd.records@ == records@
                &&& rd.total_rows == records.len()
                &&& rd.bytes_read == capped(
                    (records.len() * vstd::layout::size_of::<AvroDatum>()) as nat,
                )
                &&& record_schema(records[0]->Record_0@, rd.schema)
            },
    {
        if records.len() == 0 {
            return Err(ReaderError::InvalidFormat(String::from_str("Empty or invalid AVRO file")));
        }
        let fields: &Vec<(String, AvroDatum)> = match &records[0] {
            AvroDatum::Record(fs) => fs,
            _ => {
                return Err(
                    ReaderError::InvalidFormat(String::from_str("Empty or invalid AVRO file")),
                );
            },
        };
        let mut out: Vec<SchemaField> = Vec::new();
        let mut j: usize = 0;
        while j < fields.len()
            invariant
                j <= fields.len(),
                out.len() == j,
                forall|k: int|
                    0 <= k < j ==> {
                        &&& (#[trigger] out[k]).name@ == fields@[k].0@
                        &&& out[k].dtype == datum_type(fields@[k].1)
                        &&& out[k].nullable == (fields@[k].1 is Null)
                    },
            decreases fields.len() - j,
        {
            let v = &fields[j].1;
            let nullable = match v {
                AvroDatum::Null => true,
                _ => false,
            };
            out.push(
                SchemaField { name: fields[j].0.clone(), dtype: dtype_from_avro(v), nullable },
            );
            j = j + 1;
        }
        let schema = Schema { fields: out };
        let n = records.len();
        let size = core::mem::size_of::<AvroDatum>();
        let bytes_read: u64 = match (n as u64).checked_mul(size as u64) {
            Some(b) => b,
            None => u64::MAX,
        };
        Ok(AvroReader { data, schema, bytes_read, total_rows: n as u128, records })
    }
}

impl<'a> Reader for AvroReader<'a> {
    open spec fn spec_schema(&self) -> Schema {
        self.schema
    }

    open spec fn spec_data(&self) -> Seq<u8> {
        self.data@
    }

    open spec fn spec_bytes_read(&self) -> u64 {
        self.bytes_read
    }

    open spec fn spec_total_rows(&self) -> u128 {
        self.total_rows
    }

    open spec fn dtype_label(&self, t: DataType) -> Seq<char> {
        t.sql_name()
    }

    fn schema(&self) -> (r: &Schema) {
        &self.schema
    }

    fn data(&self) -> (r: &[u8]) {
        self.data
    }

    fn bytes_read(&self) -> (r: u64) {
        self.bytes_read
    }

    fn total_rows(&self) -> (r: u128) {
        self.total_rows
    }

    fn column_names(&self) -> (r: Vec<&str>) {
        names_of(&self.schema)
    }

    fn column_types(&self) -> (r: Vec<String>) {
        let mut out: Vec<String> = Vec::new();
        let mut i: usize = 0;
        while i < self.schema.fields.len()
            invariant
                i <= self.schema.fields.len(),
                out.len() == i,
                forall|k: int|
                    0 <= k < i ==> #[trigger] out[k]@ == self.schema.fields[k].dtype.sql_name(),
            decreases self.schema.fields.len() - i,
        {
            out.push(String::from_str(self.schema.fields[i].dtype.as_str()));
            i = i + 1;
        }
        out
    }

    fn total_columns(&self) -> (r: usize) {
        self.schema.fields.len()
    }
}

impl<'a> IterableReader for AvroReader<'a> {
    /// One result per decoded record, in order.
    open spec fn spec_rows(&self, rows: Seq<Result<Row, ReaderError>>) -> bool {
        &&& rows.len() == self.records.len()
        &&& forall|i: int| 0 <= i < rows.len() ==> record_read(self.records[i], #[trigger] rows[i])
    }

    fn iter_rows(&self) -> (r: Vec<Result<Row, ReaderError>>) {
        let mut out: Vec<Result<Row, ReaderError>> = Vec::new();
        let mut i: usize = 0;
        while i < self.records.len()
            invariant
                i <= self.records.len(),
                out.len() == i,
                forall|k: int| 0 <= k < i ==> record_read(self.records[k], #[trigger] out[k]),
            decreases self.records.len() - i,
        {
            out.push(read_record(&self.records[i]));
            i = i + 1;
        }
        out
    }
}

} // verus!
