//! What every format reader offers: its schema, its accounting, and its
//! rows as typed values.
use vstd::prelude::*;
use crate::schema::{DataType, Schema, TypedValue};

verus! {

/// Why a payload or one of its rows could not be read.
#[derive(Debug, Clone)]
pub enum ReaderError {
    /// Delimited text that could not be framed.
    Csv(String),
    /// A binary payload that could not be framed or holds no record, or a
    /// value of an unsupported shape.
    InvalidFormat(String),
}

/// One row: a typed value per column.
#[derive(Debug, Clone)]
pub struct Row(pub Vec<TypedValue>);

impl Row {
    pub fn values(&self) -> (r: &Vec<TypedValue>)
        ensures
            r == &self.0,
    {
        &self.0
    }

    pub fn len(&self) -> (r: usize)
        ensures
            r == self.0.len(),
    {
        self.0.len()
    }
}

/// The schema and accounting of a reader.
pub trait Reader {
    spec fn spec_schema(&self) -> Schema;

    spec fn spec_data(&self) -> Seq<u8>;

    spec fn spec_bytes_read(&self) -> u64;

    spec fn spec_total_rows(&self) -> u128;

    /// The name under which this reader reports a column type.
    spec fn dtype_label(&self, t: DataType) -> Seq<char>;

    fn schema(&self) -> (r: &Schema)
        ensures
            *r == self.spec_schema(),
    ;

    fn data(&self) -> (r: &[u8])
        ensures
            r@ == self.spec_data(),
    ;

    fn bytes_read(&self) -> (r: u64)
        ensures
            r == self.spec_bytes_read(),
    ;

    fn total_rows(&self) -> (r: u128)
        ensures
            r == self.spec_total_rows(),
    ;

    fn column_names(&self) -> (r: Vec<&str>)
        ensures
            r.len() == self.spec_schema().fields.len(),
            forall|i: int|
                0 <= i < r.len() ==> #[trigger] r[i]@ == self.spec_schema().fields[i].name@,
    ;

    fn column_types(&self) -> (r: Vec<String>)
        ensures
            r.len() == self.spec_schema().fields.len(),
            forall|i: int|
                0 <= i < r.len() ==> #[trigger] r[i]@ == self.dtype_label(
                    self.spec_schema().fields[i].dtype,
                ),
    ;

    fn total_columns(&self) -> (r: usize)
        ensures
            r == self.spec_schema().fields.len(),
    ;
}

/// A reader whose rows can be read, each time from the start.
pub trait IterableReader: Reader {
    /// The rows that this reader yields, in order.
    spec fn spec_rows(&self, rows: Seq<Result<Row, ReaderError>>) -> bool;

    fn iter_rows(&self) -> (r: Vec<Result<Row, ReaderError>>)
        ensures
            self.spec_rows(r@),
    ;
}

/// The names of `s`'s columns, borrowed.
pub fn names_of(s: &Schema) -> (r: Vec<&str>)
    ensures
        r.len() == s.fields.len(),
        forall|i: int| 0 <= i < r.len() ==> #[trigger] r[i]@ == s.fields[i].name@,
{
    let mut out: Vec<&str> = Vec::new();
    let mut i: usize = 0;
    while i < s.fields.len()
        invariant
            i <= s.fields.len(),
            out.len() == i,
            forall|k: int| 0 <= k < i ==> #[trigger] out[k]@ == s.fields[k].name@,
        decreases s.fields.len() - i,
    {
        out.push(s.fields[i].name.as_str());
        i = i + 1;
    }
    out
}

} // verus!
