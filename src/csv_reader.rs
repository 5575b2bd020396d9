//! The delimited-text reader: a header row of names, a sampled inference
//! pass for the schema, and typed rows read from the start on each pass.
use vstd::prelude::*;
use vstd::string::StringExecFns;
use crate::inference::{data_type_of, updated, InferredType};
use crate::numeric::{i64_of, is_float_text, parse_i64, parses_as_float};
use crate::reader::{names_of, IterableReader, Reader, ReaderError, Row};
use crate::schema::{str_len, DataType, Schema, SchemaField, TypedValue, ValueLiteral};
use crate::text::{chars_eq, chars_of, is_blank, trim};

verus! {

/// The records that csv's reader yields from `data` when no row is taken as
/// a header: the fields of each record, or `None` for a record that could
/// not be read.
pub uninterp spec fn csv_records(data: Seq<u8>) -> Seq<Option<Seq<Seq<char>>>>;

pub open spec fn fields_view(f: Vec<String>) -> Seq<Seq<char>> {
    f@.map_values(|s: String| s@)
}

pub open spec fn records_view(r: Seq<Result<Vec<String>, String>>) -> Seq<
    Option<Seq<Seq<char>>>,
> {
    r.map_values(
        |x: Result<Vec<String>, String>|
            match x {
                Ok(f) => Some(fields_view(f)),
                Err(_) => None,
            },
    )
}

/// Relies on csv's `Reader::records`, with `has_headers(false)`: one entry
/// per record of `data`, in order, holding its fields or the message of the
/// error it gave.
#[verifier::external_body]
fn read_records(data: &[u8]) -> (r: Vec<Result<Vec<String>, String>>)
    ensures
        records_view(r@) == csv_records(data@),
{
    let mut rdr = csv::ReaderBuilder::new().has_headers(false).from_reader(data);
    rdr.records().map(
        |rec| rec.map(|f| f.iter().map(String::from).collect()).map_err(|e| e.to_string()),
    ).collect()
}

/// The header row: the first record, or no names for an empty payload.
pub open spec fn header_of(recs: Seq<Option<Seq<Seq<char>>>>) -> Option<Seq<Seq<char>>> {
    if recs.len() == 0 {
        Some(Seq::empty())
    } else {
        recs[0]
    }
}

/// The data records that schema discovery reads: at most `max` of them.
pub open spec fn sampled(recs: Seq<Option<Seq<Seq<char>>>>, max: nat) -> Seq<
    Option<Seq<Seq<char>>>,
> {
    if recs.len() == 0 {
        Seq::empty()
    } else if recs.len() - 1 <= max {
        recs.drop_first()
    } else {
        recs.subrange(1, max + 1 as int)
    }
}

/// Schema discovery fails when the header or a sampled record cannot be read.
pub open spec fn discovery_fails(recs: Seq<Option<Seq<Seq<char>>>>, max: nat) -> bool {
    header_of(recs) is None || exists|k: int|
        0 <= k < sampled(recs, max).len() && #[trigger] sampled(recs, max)[k] is None
}

pub open spec fn rows_of(s: Seq<Option<Seq<Seq<char>>>>) -> Seq<Seq<Seq<char>>> {
    s.map_values(|o: Option<Seq<Seq<char>>>| o->0)
}

/// The inferred type of column `j` after the given rows.
pub open spec fn column_type(rows: Seq<Seq<Seq<char>>>, j: int) -> InferredType
    decreases rows.len(),
{
    if rows.len() == 0 {
        InferredType::Null
    } else {
        let prev = column_type(rows.drop_last(), j);
        if j < rows.last().len() {
            updated(prev, rows.last()[j])
        } else {
            prev
        }
    }
}

/// Whether column `j` is blank in one of the given rows.
pub open spec fn column_nullable(rows: Seq<Seq<Seq<char>>>, j: int) -> bool
    decreases rows.len(),
{
    if rows.len() == 0 {
        false
    } else {
        column_nullable(rows.drop_last(), j) || (j < rows.last().len() && trim(
            rows.last()[j],
        ).len() == 0)
    }
}

/// The sum of the byte lengths of some fields.
pub open spec fn fields_bytes(f: Seq<Seq<char>>) -> nat
    decreases f.len(),
{
    if f.len() == 0 {
        0
    } else {
        (fields_bytes(f.drop_last()) + str_len(f.last())) as nat
    }
}

/// The sum of the byte lengths of all fields of the given rows.
pub open spec fn rows_bytes(rows: Seq<Seq<Seq<char>>>) -> nat
    decreases rows.len(),
{
    if rows.len() == 0 {
        0
    } else {
        rows_bytes(rows.drop_last()) + fields_bytes(rows.last())
    }
}

pub open spec fn capped(n: nat) -> u64 {
    if n > u64::MAX {
        u64::MAX
    } else {
        n as u64
    }
}

/// A delimited-text source with the schema found by sampling it.
pub struct CsvReader<'a> {
    pub data: &'a [u8],
    pub schema: Schema,
    pub bytes_read: u64,
    pub total_rows: u128,
}

/// A field read eagerly, without the inference lattice: empty is null, then
/// an integer, a float, `true` or `false` exactly, else text.
pub open spec fn parsed_field(s: Seq<char>, v: TypedValue) -> bool {
    if s.len() == 0 {
        v.dtype == DataType::Null && v.value is Null
    } else if i64_of(s) is Some {
        v.dtype == DataType::Int && v.value == ValueLiteral::Int(i64_of(s)->0)
    } else if is_float_text(s) {
        v.dtype == DataType::Real && v.value is Float && v.value->Float_0@ == s
    } else if s == "true"@ || s == "false"@ {
        v.dtype == DataType::Numeric && v.value == ValueLiteral::Boolean(s == "true"@)
    } else {
        v.dtype == DataType::Text && v.value is Text && v.value->Text_0@ == s
    }
}

/// Reads one field as a typed value.
pub fn parse_str_value(s: &str) -> (r: TypedValue)
    ensures
        parsed_field(s@, r),
{
    let v = chars_of(s);
    if v.len() == 0 {
        return TypedValue { dtype: DataType::Null, value: ValueLiteral::Null };
    }
    match parse_i64(&v) {
        Some(i) => {
            return TypedValue { dtype: DataType::Int, value: ValueLiteral::Int(i) };
        },
        None => {},
    }
    if parses_as_float(&v) {
        return TypedValue { dtype: DataType::Real, value: ValueLiteral::Float(String::from_str(s)) };
    }
    let t = chars_of("true");
    let f = chars_of("false");
    if chars_eq(&v, &t) {
        TypedValue { dtype: DataType::Numeric, value: ValueLiteral::Boolean(true) }
    } else if chars_eq(&v, &f) {
        TypedValue { dtype: DataType::Numeric, value: ValueLiteral::Boolean(false) }
    } else {
        TypedValue { dtype: DataType::Text, value: ValueLiteral::Text(String::from_str(s)) }
    }
}

/// The typed row read from some fields.
pub open spec fn parsed_row(f: Seq<Seq<char>>, row: Row) -> bool {
    row.0.len() == f.len() && forall|j: int|
        0 <= j < f.len() ==> parsed_field(#[trigger] f[j], row.0[j])
}

fn parse_row(fields: &Vec<String>) -> (r: Row)
    ensures
        parsed_row(fields_view(*fields), r),
{
    let mut out: Vec<TypedValue> = Vec::new();
    let mut j: usize = 0;
    while j < fields.len()
        invariant
            j <= fields.len(),
            out.len() == j,
            forall|k: int| 0 <= k < j ==> parsed_field(#[trigger] fields@[k]@, out[k]),
        decreases fields.len() - j,
    {
        out.push(parse_str_value(fields[j].as_str()));
        j = j + 1;
    }
    Row(out)
}

fn row_bytes(fields: &Vec<String>) -> (r: u64)
    ensures
        r == capped(fields_bytes(fields_view(*fields))),
{
    let ghost fv = fields_view(*fields);
    let mut acc: u64 = 0;
    let mut j: usize = 0;
    while j < fields.len()
        invariant
            j <= fields.len(),
            fv == fields_view(*fields),
            acc == capped(fields_bytes(fv.take(j as int))),
        decreases fields.len() - j,
    {
        assert(fv.take(j + 1).drop_last() == fv.take(j as int));
        let n = fields[j].as_str().len();
        acc = acc.saturating_add(n as u64);
        j = j + 1;
    }
    assert(fv.take(j as int) == fv);
    acc
}

/// What schema discovery finds in the records `recs` of `data` when it
/// samples at most `max` data rows.
pub open spec fn discovered(
    rd: CsvReader,
    data: Seq<u8>,
    recs: Seq<Option<Seq<Seq<char>>>>,
    max: nat,
) -> bool {
    let rows = rows_of(sampled(recs, max));
    let header = header_of(recs)->0;
    &&& rd.data@ == data
    &&& rd.total_rows == rows.len()
    &&& rd.bytes_read == capped(rows_bytes(rows))
    &&& rd.schema.fields.len() == header.len()
    &&& forall|j: int|
        0 <= j < header.len() ==> {
            &&& (#[trigger] rd.schema.fields[j]).name@ == header[j]
            &&& rd.schema.fields[j].dtype == data_type_of(column_type(rows, j))
            &&& rd.schema.fields[j].nullable == column_nullable(rows, j)
        }
}

/// The data records after the header.
pub open spec fn data_records(recs: Seq<Option<Seq<Seq<char>>>>) -> Seq<Option<Seq<Seq<char>>>> {
    if recs.len() == 0 {
        Seq::empty()
    } else {
        recs.drop_first()
    }
}

impl<'a> CsvReader<'a> {
    /// Reads the header row, then infers each column's type and
    /// nullability from at most `max_infer_rows` data rows, counting them
    /// and the bytes of their fields.
    pub fn try_new(data: &'a [u8], max_infer_rows: usize) -> (r: Result<CsvReader<'a>, ReaderError>)
        ensures
            r is Err <==> discovery_fails(csv_records(data@), max_infer_rows as nat),
            r is Err ==> r->Err_0 is Csv,
            r is Ok ==> discovered(r->Ok_0, data@, csv_records(data@), max_infer_rows as nat),
    {
        let recs = read_records(data);
        Self::from_records(data, &recs, max_infer_rows)
    }

    /// Schema discovery over the records read from `data`: the first is the
    /// header, and at most `max_infer_rows` of the rest are sampled.
    pub fn from_records(
        data: &'a [u8],
        recs: &Vec<Result<Vec<String>, String>>,
        max_infer_rows: usize,
    ) -> (r: Result<CsvReader<'a>, ReaderError>)
        ensures
            r is Err <==> discovery_fails(records_view(recs@), max_infer_rows as nat),
            r is Err ==> r->Err_0 is Csv,
            r is Ok ==> discovered(
                r->Ok_0,
                data@,
                records_view(recs@),
                max_infer_rows as nat,
            ),
    {
        let ghost rv = records_view(recs@);
        let ghost max = max_infer_rows as nat;
        let empty: Vec<String> = Vec::new();
        let header: &Vec<String> = if recs.len() == 0 {
            assert(fields_view(empty) == Seq::<Seq<char>>::empty());
            &empty
        } else {
            match &recs[0] {
                Ok(h) => h,
                Err(e) => {
                    return Err(ReaderError::Csv(e.clone()));
                },
            }
        };
        assert(header_of(rv) == Some(fields_view(*header)));
        let ncols = header.len();
        let mut inferred: Vec<InferredType> = Vec::new();
        let mut has_nulls: Vec<bool> = Vec::new();
        let mut j: usize = 0;
        while j < ncols
            invariant
                j <= ncols,
                inferred.len() == j,
                has_nulls.len() == j,
                forall|k: int| 0 <= k < j ==> inferred[k] == InferredType::Null,
                forall|k: int| 0 <= k < j ==> !has_nulls[k],
            decreases ncols - j,
        {
            inferred.push(InferredType::Null);
            has_nulls.push(false);
            j = j + 1;
        }
        let available: usize = if recs.len() == 0 {
            0
        } else {
            recs.len() - 1
        };
        let budget: usize = if available <= max_infer_rows {
            available
        } else {
            max_infer_rows
        };
        let ghost s = sampled(rv, max);
        assert(s.len() == budget);
        assert(forall|i: int| 0 <= i < budget ==> s[i] == rv[i + 1]);
        let mut total_rows: u128 = 0;
        let mut bytes_read: u64 = 0;
        let mut i: usize = 0;
        assert(rows_of(s.take(0)) == Seq::<Seq<Seq<char>>>::empty());
        while i < budget
            invariant
                i <= budget == s.len(),
                s == sampled(rv, max),
                rv == records_view(recs@),
                max == max_infer_rows as nat,
                header_of(rv) == Some(fields_view(*header)),
                ncols == header.len(),
                budget <= recs.len(),
                budget > 0 ==> budget < recs.len(),
                forall|k: int| 0 <= k < budget ==> s[k] == rv[k + 1],
                forall|k: int| 0 <= k < i ==> s[k] is Some,
                inferred.len() == ncols,
                has_nulls.len() == ncols,
                forall|k: int|
                    0 <= k < ncols ==> inferred[k] == column_type(rows_of(s.take(i as int)), k),
                forall|k: int|
                    0 <= k < ncols ==> has_nulls[k] == column_nullable(
                        rows_of(s.take(i as int)),
                        k,
                    ),
                total_rows == i,
                bytes_read == capped(rows_bytes(rows_of(s.take(i as int)))),
            decreases budget - i,
        {
            let fields: &Vec<String> = match &recs[i + 1] {
                Ok(f) => f,
                Err(e) => {
                    assert(sampled(rv, max)[i as int] is None);
                    return Err(ReaderError::Csv(e.clone()));
                },
            };
            let ghost prev = rows_of(s.take(i as int));
            let ghost next = rows_of(s.take(i + 1));
            assert(next.len() == i + 1);
            assert(next.drop_last() == prev);
            assert(next.last() == fields_view(*fields));
            total_rows = total_rows + 1;
            bytes_read = bytes_read.saturating_add(row_bytes(fields));
            let limit = if fields.len() < ncols {
                fields.len()
            } else {
                ncols
            };
            let mut j: usize = 0;
            while j < limit
                invariant
                    j <= limit <= ncols,
                    limit <= fields.len(),
                    next.len() > 0,
                    next.drop_last() == prev,
                    next.last() == fields_view(*fields),
                    inferred.len() == ncols,
                    has_nulls.len() == ncols,
                    forall|k: int| 0 <= k < j ==> inferred[k] == column_type(next, k),
                    forall|k: int| j <= k < ncols ==> inferred[k] == column_type(prev, k),
                    forall|k: int| 0 <= k < j ==> has_nulls[k] == column_nullable(next, k),
                    forall|k: int| j <= k < ncols ==> has_nulls[k] == column_nullable(prev, k),
                decreases limit - j,
            {
                let field = fields[j].as_str();
                assert(next.last()[j as int] == field@);
                assert(column_nullable(next, j as int) == (column_nullable(prev, j as int) || trim(
                    field@,
                ).len() == 0));
                if is_blank(field) {
                    has_nulls.set(j, true);
                } else {
                    let mut t = inferred[j];
                    t.update(field);
                    inferred.set(j, t);
                    assert(column_type(next, j as int) == updated(
                        column_type(prev, j as int),
                        field@,
                    ));
                }
                j = j + 1;
            }
            assert forall|k: int| 0 <= k < ncols implies inferred[k] == column_type(next, k)
                && has_nulls[k] == column_nullable(next, k) by {
                if k >= j {
                    assert(fields_view(*fields).len() == fields.len());
                    assert(k >= next.last().len());
                    assert(column_type(next, k) == column_type(prev, k));
                    assert(column_nullable(next, k) == column_nullable(prev, k));
                }
            }
            i = i + 1;
        }
        assert(s.take(budget as int) == s);
        let ghost rows = rows_of(s);
        let mut fields: Vec<SchemaField> = Vec::new();
        let mut j: usize = 0;
        while j < ncols
            invariant
                j <= ncols == header.len() == inferred.len() == has_nulls.len(),
                fields.len() == j,
                forall|k: int|
                    0 <= k < j ==> {
                        &&& (#[trigger] fields[k]).name@ == header@[k]@
                        &&& fields[k].dtype == data_type_of(inferred[k])
                        &&& fields[k].nullable == has_nulls[k]
                    },
            decreases ncols - j,
        {
            fields.push(
                SchemaField {
                    name: header[j].clone(),
                    dtype: inferred[j].to_data_type(),
                    nullable: has_nulls[j],
                },
            );
            j = j + 1;
        }
        assert(!discovery_fails(rv, max));
        Ok(CsvReader { data, schema: Schema { fields }, bytes_read, total_rows })
    }
}

impl<'a> Reader for CsvReader<'a> {
    open spec fn spec_schema(&self) -> Schema {
        self.schema
    }

    open spec fn spec_data(&self) -> Seq<u8> {
        self.data@
    }

    open spec fn spec_bytes_read(&self) -> u64 {
        self.bytes_read
    }

    open spec fn spec_total_rows(&self) -> u128 {
        self.total_rows
    }

    open spec fn dtype_label(&self, t: DataType) -> Seq<char> {
        t.variant_name()
    }

    fn schema(&self) -> (r: &Schema) {
        &self.schema
    }

    fn data(&self) -> (r: &[u8]) {
        self.data
    }

    fn bytes_read(&self) -> (r: u64) {
        self.bytes_read
    }

    fn total_rows(&self) -> (r: u128) {
        self.total_rows
    }

    fn column_names(&self) -> (r: Vec<&str>) {
        names_of(&self.schema)
    }

    fn column_types(&self) -> (r: Vec<String>) {
        let mut out: Vec<String> = Vec::new();
        let mut i: usize = 0;
        while i < self.schema.fields.len()
            invariant
                i <= self.schema.fields.len(),
                out.len() == i,
                forall|k: int|
                    0 <= k < i ==> #[trigger] out[k]@ == self.schema.fields[k].dtype.variant_name(),
            decreases self.schema.fields.len() - i,
        {
            out.push(String::from_str(self.schema.fields[i].dtype.name()));
            i = i + 1;
        }
        out
    }

    fn total_columns(&self) -> (r: usize) {
        self.schema.fields.len()
    }
}

/// The rows of some records: every record after the header, read into a
/// typed row, or the error it gave.
pub open spec fn records_rows(
    recs: Seq<Option<Seq<Seq<char>>>>,
    rows: Seq<Result<Row, ReaderError>>,
) -> bool {
    let data = data_records(recs);
    &&& rows.len() == data.len()
    &&& forall|i: int|
        0 <= i < rows.len() ==> match #[trigger] data[i] {
            Some(f) => rows[i] is Ok && parsed_row(f, rows[i]->Ok_0),
            None => rows[i] is Err && rows[i]->Err_0 is Csv,
        }
}

/// Reads the records after the header into typed rows.
pub fn rows_from_records(recs: &Vec<Result<Vec<String>, String>>) -> (r: Vec<
    Result<Row, ReaderError>,
>)
    ensures
        records_rows(records_view(recs@), r@),
{
    let ghost rv = records_view(recs@);
    let mut out: Vec<Result<Row, ReaderError>> = Vec::new();
    if recs.len() == 0 {
        return out;
    }
    let mut i: usize = 1;
    while i < recs.len()
        invariant
            1 <= i <= recs.len(),
            rv == records_view(recs@),
            out.len() == i - 1,
            forall|k: int|
                0 <= k < i - 1 ==> match #[trigger] data_records(rv)[k] {
                    Some(f) => out[k] is Ok && parsed_row(f, out[k]->Ok_0),
                    None => out[k] is Err && out[k]->Err_0 is Csv,
                },
        decreases recs.len() - i,
    {
        assert(data_records(rv)[i - 1] == rv[i as int]);
        match &recs[i] {
            Ok(f) => out.push(Ok(parse_row(f))),
            Err(e) => out.push(Err(ReaderError::Csv(e.clone()))),
        }
        i = i + 1;
    }
    out
}

impl<'a> IterableReader for CsvReader<'a> {
    /// The rows of the records of the payload, read afresh on each call.
    open spec fn spec_rows(&self, rows: Seq<Result<Row, ReaderError>>) -> bool {
        records_rows(csv_records(self.data@), rows)
    }

    fn iter_rows(&self) -> (r: Vec<Result<Row, ReaderError>>) {
        let recs = read_records(self.data);
        rows_from_records(&recs)
    }
}

/// Reading a non-empty field, writing the value back in its display form
/// and reading that again gives the same type. (An empty field reads as
/// null, whose display form `NULL` reads back as text.)
pub proof fn lemma_display_reads_back(s: Seq<char>, v: TypedValue, w: TypedValue)
    requires
        s.len() > 0,
        parsed_field(s, v),
        parsed_field(v.value.display(), w),
    ensures
        w.dtype == v.dtype,
{
    if i64_of(s) is Some {
        let i = i64_of(s)->0;
        crate::numeric::lemma_i64_text_round_trip(i);
        crate::numeric::lemma_nat_digits_nonempty(i as int);
    }
}

/// For every row read from a payload's records and every non-empty field
/// of it, the field's display form reads back as the field's type.
pub proof fn lemma_rows_display_read_back(
    recs: Seq<Option<Seq<Seq<char>>>>,
    rows: Seq<Result<Row, ReaderError>>,
    i: int,
    j: int,
    w: TypedValue,
)
    requires
        records_rows(recs, rows),
        0 <= i < rows.len(),
        rows[i] is Ok,
        0 <= j < rows[i]->Ok_0.0.len(),
        data_records(recs)[i]->0[j].len() > 0,
        parsed_field(rows[i]->Ok_0.0[j].value.display(), w),
    ensures
        w.dtype == rows[i]->Ok_0.0[j].dtype,
{
    let f = data_records(recs)[i];
    assert(f is Some);
    lemma_display_reads_back(f->0[j], rows[i]->Ok_0.0[j], w);
}

} // verus!
