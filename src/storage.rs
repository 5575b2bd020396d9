//! Options of a table instance, and the text forms that its persisted copy
//! is written in and read back from.
use vstd::prelude::*;
use vstd::string::StringExecFns;
use crate::schema::DataType;
use crate::text::{chars_of, push_char, string_of, trim, trim_bounds};

verus! {

/// Where the persisted copy of a table lives.
#[derive(Debug, Clone, Copy, PartialEq, Eq, Structural)]
pub enum StorageOpts {
    TEMP,
    DISK,
}

/// The source formats that a table can be read from.
#[derive(Debug, Clone, Copy, PartialEq, Eq, Structural)]
pub enum VTabDataFormats {
    CSV,
    AVRO,
    PARQUET,
    JSON,
    JSONL,
}

/// A table option that names no known value.
#[derive(Debug, Clone)]
pub enum OptionError {
    UnknownFormat(String),
    UnknownStorage(String),
}

impl OptionError {
    /// The message: the kind of option, then the value as it was given.
    pub open spec fn message(self) -> Seq<char> {
        match self {
            OptionError::UnknownFormat(v) => "Unknown data format: "@ + v@,
            OptionError::UnknownStorage(v) => "Not a valid storage option: "@ + v@,
        }
    }

    pub fn to_string(&self) -> (r: String)
        ensures
            r@ == self.message(),
    {
        match self {
            OptionError::UnknownFormat(v) => {
                let mut out = String::from_str("Unknown data format: ");
                out.append(v.as_str());
                out
            },
            OptionError::UnknownStorage(v) => {
                let mut out = String::from_str("Not a valid storage option: ");
                out.append(v.as_str());
                out
            },
        }
    }
}

/// What `str::to_uppercase` returns for a string.
pub uninterp spec fn upper_of(s: Seq<char>) -> Seq<char>;

/// Relies on `str::to_uppercase`: the Unicode upper case of the string,
/// which depends on its chars alone.
#[verifier::external_body]
pub(crate) fn uppercase(s: &str) -> (r: String)
    ensures
        r@ == upper_of(s@),
{
    s.to_uppercase()
}

/// The storage option that an upper-cased, trimmed name selects.
pub open spec fn storage_of_upper(u: Seq<char>) -> Option<StorageOpts> {
    if u == "TEMP"@ {
        Some(StorageOpts::TEMP)
    } else if u == "DISK"@ {
        Some(StorageOpts::DISK)
    } else {
        None
    }
}

/// The format that an upper-cased name selects; `NDJSON` is another name
/// for `JSONL`.
pub open spec fn format_of_upper(u: Seq<char>) -> Option<VTabDataFormats> {
    if u == "CSV"@ {
        Some(VTabDataFormats::CSV)
    } else if u == "AVRO"@ {
        Some(VTabDataFormats::AVRO)
    } else if u == "PARQUET"@ {
        Some(VTabDataFormats::PARQUET)
    } else if u == "JSON"@ {
        Some(VTabDataFormats::JSON)
    } else if u == "JSONL"@ || u == "NDJSON"@ {
        Some(VTabDataFormats::JSONL)
    } else {
        None
    }
}

/// Chooses the storage option named by `upper`, the upper-cased and
/// trimmed form of `given`; an unknown name is an error that quotes `given`.
pub fn storage_from_upper(upper: &str, given: &str) -> (r: Result<StorageOpts, OptionError>)
    ensures
        storage_of_upper(upper@) is Some ==> r == Ok::<StorageOpts, OptionError>(
            storage_of_upper(upper@)->0,
        ),
        storage_of_upper(upper@) is None ==> (r matches Err(OptionError::UnknownStorage(v))
            && v@ == given@),
{
    let u = String::from_str(upper);
    if u == String::from_str("TEMP") {
        Ok(StorageOpts::TEMP)
    } else if u == String::from_str("DISK") {
        Ok(StorageOpts::DISK)
    } else {
        Err(OptionError::UnknownStorage(String::from_str(given)))
    }
}

/// Reads a storage option, ignoring case and surrounding whitespace.
pub fn get_storage(storage: &str) -> (r: Result<StorageOpts, OptionError>)
    ensures
        storage_of_upper(upper_of(trim(storage@))) is Some ==> r == Ok::<
            StorageOpts,
            OptionError,
        >(storage_of_upper(upper_of(trim(storage@)))->0),
        storage_of_upper(upper_of(trim(storage@))) is None ==> (r matches Err(
            OptionError::UnknownStorage(v),
        ) && v@ == storage@),
{
    let v = chars_of(storage);
    let (lo, hi) = trim_bounds(&v);
    let trimmed = string_of(&v, lo, hi);
    let upper = uppercase(trimmed.as_str());
    storage_from_upper(upper.as_str(), storage)
}

/// Chooses the format named by `upper`, the upper-cased form of `given`;
/// an unknown name is an error that quotes `given`.
pub fn format_from_upper(upper: &str, given: &str) -> (r: Result<VTabDataFormats, OptionError>)
    ensures
        format_of_upper(upper@) is Some ==> r == Ok::<VTabDataFormats, OptionError>(
            format_of_upper(upper@)->0,
        ),
        format_of_upper(upper@) is None ==> (r matches Err(OptionError::UnknownFormat(v))
            && v@ == given@),
{
    let u = String::from_str(upper);
    if u == String::from_str("CSV") {
        Ok(VTabDataFormats::CSV)
    } else if u == String::from_str("AVRO") {
        Ok(VTabDataFormats::AVRO)
    } else if u == String::from_str("PARQUET") {
        Ok(VTabDataFormats::PARQUET)
    } else if u == String::from_str("JSON") {
        Ok(VTabDataFormats::JSON)
    } else if u == String::from_str("JSONL") || u == String::from_str("NDJSON") {
        Ok(VTabDataFormats::JSONL)
    } else {
        Err(OptionError::UnknownFormat(String::from_str(given)))
    }
}

/// Reads a format name, ignoring case.
pub fn get_format(fmt: &str) -> (r: Result<VTabDataFormats, OptionError>)
    ensures
        format_of_upper(upper_of(fmt@)) is Some ==> r == Ok::<VTabDataFormats, OptionError>(
            format_of_upper(upper_of(fmt@))->0,
        ),
        format_of_upper(upper_of(fmt@)) is None ==> (r matches Err(OptionError::UnknownFormat(v))
            && v@ == fmt@),
{
    let upper = uppercase(fmt);
    format_from_upper(upper.as_str(), fmt)
}

impl VTabDataFormats {
    pub open spec fn name(self) -> Seq<char> {
        match self {
            VTabDataFormats::CSV => "CSV"@,
            VTabDataFormats::AVRO => "AVRO"@,
            VTabDataFormats::PARQUET => "PARQUET"@,
            VTabDataFormats::JSON => "JSON"@,
            VTabDataFormats::JSONL => "JSONL"@,
        }
    }

    pub fn as_str(&self) -> (r: &'static str)
        ensures
            r@ == self.name(),
    {
        match self {
            VTabDataFormats::CSV => "CSV",
            VTabDataFormats::AVRO => "AVRO",
            VTabDataFormats::PARQUET => "PARQUET",
            VTabDataFormats::JSON => "JSON",
            VTabDataFormats::JSONL => "JSONL",
        }
    }
}

/// The type names that columns of the persisted copy are declared with.
#[derive(Debug, Clone, Copy, PartialEq, Eq, Structural)]
pub enum SQLiteDataTypes {
    BLOB,
    REAL,
    INT,
    NUMERIC,
    TEXT,
    NULL,
}

impl SQLiteDataTypes {
    pub open spec fn name(self) -> Seq<char> {
        match self {
            SQLiteDataTypes::BLOB => "BLOB"@,
            SQLiteDataTypes::REAL => "REAL"@,
            SQLiteDataTypes::INT => "INTEGER"@,
            SQLiteDataTypes::TEXT => "TEXT"@,
            SQLiteDataTypes::NULL => "NULL"@,
            SQLiteDataTypes::NUMERIC => "NUMERIC"@,
        }
    }

    pub fn as_str(&self) -> (r: &'static str)
        ensures
            r@ == self.name(),
    {
        match self {
            SQLiteDataTypes::BLOB => "BLOB",
            SQLiteDataTypes::REAL => "REAL",
            SQLiteDataTypes::INT => "INTEGER",
            SQLiteDataTypes::TEXT => "TEXT",
            SQLiteDataTypes::NULL => "NULL",
            SQLiteDataTypes::NUMERIC => "NUMERIC",
        }
    }
}

/// The declared type of a column of the persisted copy, by its affinity.
pub open spec fn sqlite_type_of(t: DataType) -> SQLiteDataTypes {
    match t {
        DataType::Null => SQLiteDataTypes::NULL,
        DataType::Int => SQLiteDataTypes::INT,
        DataType::Real => SQLiteDataTypes::REAL,
        DataType::Text => SQLiteDataTypes::TEXT,
        DataType::Numeric => SQLiteDataTypes::NUMERIC,
        DataType::Blob => SQLiteDataTypes::BLOB,
    }
}

pub fn df_dtype_to_sqlite_dtype(df_dtype: &DataType) -> (r: SQLiteDataTypes)
    ensures
        r == sqlite_type_of(*df_dtype),
{
    match df_dtype {
        DataType::Null => SQLiteDataTypes::NULL,
        DataType::Int => SQLiteDataTypes::INT,
        DataType::Real => SQLiteDataTypes::REAL,
        DataType::Text => SQLiteDataTypes::TEXT,
        DataType::Numeric => SQLiteDataTypes::NUMERIC,
        DataType::Blob => SQLiteDataTypes::BLOB,
    }
}

/// `s` with each single quote doubled.
pub open spec fn sql_escaped(s: Seq<char>) -> Seq<char>
    decreases s.len(),
{
    if s.len() == 0 {
        Seq::empty()
    } else {
        sql_escaped(s.drop_last()) + if s.last() == '\'' {
            seq!['\'', '\'']
        } else {
            seq![s.last()]
        }
    }
}

/// Escapes `s` for a single-quoted SQL string literal.
pub fn escape_sql_string(s: &str) -> (r: String)
    ensures
        r@ == sql_escaped(s@),
{
    let v = chars_of(s);
    let mut out = String::new();
    let mut i: usize = 0;
    while i < v.len()
        invariant
            i <= v.len(),
            out@ == sql_escaped(v@.take(i as int)),
        decreases v.len() - i,
    {
        assert(v@.take(i + 1).drop_last() == v@.take(i as int));
        if v[i] == '\'' {
            push_char(&mut out, '\'');
            push_char(&mut out, '\'');
        } else {
            push_char(&mut out, v[i]);
        }
        assert(out@ == sql_escaped(v@.take(i + 1)));
        i = i + 1;
    }
    assert(v@.take(v.len() as int) == v@);
    out
}

/// `s` trimmed, then without one pair of surrounding double quotes.
pub open spec fn unquoted(s: Seq<char>) -> Seq<char> {
    let t = trim(s);
    if t.len() >= 2 && t[0] == '"' && t.last() == '"' {
        t.subrange(1, t.len() - 1)
    } else {
        t
    }
}

/// The fields of a header line, read from position `i` on: `start` is
/// where the current field began and `quoted` whether an odd number of
/// double quotes has been seen. A comma outside quotes ends a field; the
/// text after the last such comma is a field only when it is not empty.
pub open spec fn header_scan(
    s: Seq<char>,
    i: int,
    start: int,
    quoted: bool,
    acc: Seq<Seq<char>>,
) -> Seq<Seq<char>>
    decreases s.len() - i,
{
    if i >= s.len() {
        if start < s.len() {
            acc.push(unquoted(trim(s.subrange(start, s.len() as int))))
        } else {
            acc
        }
    } else if s[i] == '"' {
        header_scan(s, i + 1, start, !quoted, acc)
    } else if s[i] == ',' && !quoted {
        header_scan(s, i + 1, i + 1, quoted, acc.push(unquoted(trim(s.subrange(start, i)))))
    } else {
        header_scan(s, i + 1, start, quoted, acc)
    }
}

/// The column names of a stored, comma-separated header line.
pub open spec fn header_fields(s: Seq<char>) -> Seq<Seq<char>> {
    header_scan(s, 0, 0, false, Seq::empty())
}

fn unquote_chars(v: &Vec<char>, lo: usize, hi: usize) -> (r: String)
    requires
        lo <= hi <= v.len(),
    ensures
        r@ == unquoted(trim(v@.subrange(lo as int, hi as int))),
{
    let piece = crate::numeric::slice_vec(v, lo, hi);
    let (a, b) = trim_bounds(&piece);
    let t = crate::numeric::slice_vec(&piece, a, b);
    let (c, d) = trim_bounds(&t);
    let tt = crate::numeric::slice_vec(&t, c, d);
    if tt.len() >= 2 && tt[0] == '"' && tt[tt.len() - 1] == '"' {
        string_of(&tt, 1, tt.len() - 1)
    } else {
        string_of(&tt, 0, tt.len())
    }
}

/// Splits a stored header line at the commas outside double quotes, and
/// trims each name and strips its quotes.
pub fn split_headers_line(line: &str) -> (r: Vec<String>)
    ensures
        r@.map_values(|f: String| f@) == header_fields(line@),
{
    let v = chars_of(line);
    let mut result: Vec<String> = Vec::new();
    let mut start: usize = 0;
    let mut in_quotes = false;
    let mut i: usize = 0;
    assert(result@.map_values(|f: String| f@) == Seq::<Seq<char>>::empty());
    while i < v.len()
        invariant
            start <= i <= v.len(),
            header_scan(v@, i as int, start as int, in_quotes, result@.map_values(|f: String| f@))
                == header_fields(v@),
        decreases v.len() - i,
    {
        if v[i] == '"' {
            in_quotes = !in_quotes;
            i = i + 1;
        } else if v[i] == ',' && !in_quotes {
            let field = unquote_chars(&v, start, i);
            let ghost before = result@.map_values(|f: String| f@);
            result.push(field);
            assert(result@.map_values(|f: String| f@) == before.push(field@));
            i = i + 1;
            start = i;
        } else {
            i = i + 1;
        }
    }
    if start < v.len() {
        let field = unquote_chars(&v, start, v.len());
        let ghost before = result@.map_values(|f: String| f@);
        result.push(field);
        assert(result@.map_values(|f: String| f@) == before.push(field@));
    }
    result
}

} // verus!
