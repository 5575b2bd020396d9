//! The typed value model: column types, literal values and schemas.
use vstd::prelude::*;
use vstd::string::StringExecFns;
use crate::numeric::{i64_to_text, int_digits};

verus! {

/// The storage affinity of a column.
#[derive(Debug, Clone, Copy, PartialEq, Eq, Structural)]
pub enum DataType {
    Null,
    Text,
    Int,
    Real,
    Numeric,
    Blob,
}

impl DataType {
    /// The SQL name of the affinity.
    pub open spec fn sql_name(self) -> Seq<char> {
        match self {
            DataType::Null => "NULL"@,
            DataType::Int => "INTEGER"@,
            DataType::Blob => "BLOB"@,
            DataType::Numeric => "NUMERIC"@,
            DataType::Real => "REAL"@,
            DataType::Text => "TEXT"@,
        }
    }

    /// The variant's own name.
    pub open spec fn variant_name(self) -> Seq<char> {
        match self {
            DataType::Null => "Null"@,
            DataType::Int => "Int"@,
            DataType::Blob => "Blob"@,
            DataType::Numeric => "Numeric"@,
            DataType::Real => "Real"@,
            DataType::Text => "Text"@,
        }
    }

    pub fn as_str(&self) -> (r: &'static str)
        ensures
            r@ == self.sql_name(),
    {
        match self {
            DataType::Null => "NULL",
            DataType::Int => "INTEGER",
            DataType::Blob => "BLOB",
            DataType::Numeric => "NUMERIC",
            DataType::Real => "REAL",
            DataType::Text => "TEXT",
        }
    }

    /// The affinity whose SQL name is `s`, if any.
    pub fn from_sql_name(s: &str) -> (r: Option<DataType>)
        ensures
            r is Some ==> r->0.sql_name() == s@,
            r is None ==> forall|t: DataType| #[trigger] t.sql_name() != s@,
    {
        let v = String::from_str(s);
        proof {
            reveal_strlit("NULL");
            reveal_strlit("INTEGER");
            reveal_strlit("BLOB");
            reveal_strlit("NUMERIC");
            reveal_strlit("REAL");
            reveal_strlit("TEXT");
        }
        if v == String::from_str("NULL") {
            Some(DataType::Null)
        } else if v == String::from_str("INTEGER") {
            Some(DataType::Int)
        } else if v == String::from_str("BLOB") {
            Some(DataType::Blob)
        } else if v == String::from_str("NUMERIC") {
            Some(DataType::Numeric)
        } else if v == String::from_str("REAL") {
            Some(DataType::Real)
        } else if v == String::from_str("TEXT") {
            Some(DataType::Text)
        } else {
            assert forall|t: DataType| #[trigger] t.sql_name() != s@ by {
                match t {
                    DataType::Null => {},
                    DataType::Int => {},
                    DataType::Blob => {},
                    DataType::Numeric => {},
                    DataType::Real => {},
                    DataType::Text => {},
                }
            }
            None
        }
    }

    pub fn name(&self) -> (r: &'static str)
        ensures
            r@ == self.variant_name(),
    {
        match self {
            DataType::Null => "Null",
            DataType::Int => "Int",
            DataType::Blob => "Blob",
            DataType::Numeric => "Numeric",
            DataType::Real => "Real",
            DataType::Text => "Text",
        }
    }
}

/// One value. A floating-point value is held as the decimal text it was
/// read from.
#[derive(Debug, Clone)]
pub enum ValueLiteral {
    Null,
    Boolean(bool),
    Int(i64),
    Float(String),
    Text(String),
    Blob(Vec<u8>),
}

pub open spec fn hex_digit(d: nat) -> char {
    seq!['0', '1', '2', '3', '4', '5', '6', '7', '8', '9', 'a', 'b', 'c', 'd', 'e', 'f'][d as int]
}

/// Two lowercase hex digits for each byte.
pub open spec fn hex_of(b: Seq<u8>) -> Seq<char>
    decreases b.len(),
{
    if b.len() == 0 {
        Seq::empty()
    } else {
        hex_of(b.drop_last()) + seq![
            hex_digit((b.last() / 16) as nat),
            hex_digit((b.last() % 16) as nat),
        ]
    }
}

/// Byte length of the UTF-8 encoding of `s`.
pub open spec fn utf8_len(s: Seq<char>) -> nat {
    vstd::utf8::encode_utf8(s).len()
}

/// The length in bytes that `str::len` reports for a string.
pub open spec fn str_len(s: Seq<char>) -> usize {
    utf8_len(s) as usize
}

impl ValueLiteral {
    /// The value as text: `NULL`, `true`/`false`, the decimal integer, the
    /// float's text, the text itself, or `0x` and the bytes in hex.
    pub open spec fn display(self) -> Seq<char> {
        match self {
            ValueLiteral::Null => "NULL"@,
            ValueLiteral::Boolean(b) => if b {
                "true"@
            } else {
                "false"@
            },
            ValueLiteral::Int(i) => int_digits(i as int),
            ValueLiteral::Float(s) => s@,
            ValueLiteral::Text(s) => s@,
            ValueLiteral::Blob(b) => "0x"@ + hex_of(b@),
        }
    }

    /// Size of the value in bytes: 0 for null, the machine size of a
    /// boolean, integer or float, the byte length of text and blobs.
    pub open spec fn byte_len(self) -> usize {
        match self {
            ValueLiteral::Null => 0,
            ValueLiteral::Boolean(_) => 1,
            ValueLiteral::Int(_) => 8,
            ValueLiteral::Float(_) => 8,
            ValueLiteral::Text(s) => str_len(s@),
            ValueLiteral::Blob(b) => b@.len() as usize,
        }
    }

    pub fn len(&self) -> (r: usize)
        ensures
            r == self.byte_len(),
    {
        match self {
            ValueLiteral::Null => 0,
            ValueLiteral::Boolean(_) => 1,
            ValueLiteral::Int(_) => 8,
            ValueLiteral::Float(_) => 8,
            ValueLiteral::Text(s) => s.as_str().len(),
            ValueLiteral::Blob(b) => b.len(),
        }
    }

    pub fn as_null(&self) -> (r: Option<()>)
        ensures
            r is Some <==> self is Null,
    {
        match self {
            ValueLiteral::Null => Some(()),
            _ => None,
        }
    }

    pub fn as_boolean(&self) -> (r: Option<bool>)
        ensures
            r == (match self {
                ValueLiteral::Boolean(b) => Some(*b),
                _ => None,
            }),
    {
        match self {
            ValueLiteral::Boolean(b) => Some(*b),
            _ => None,
        }
    }

    pub fn as_int(&self) -> (r: Option<i64>)
        ensures
            r == (match self {
                ValueLiteral::Int(i) => Some(*i),
                _ => None,
            }),
    {
        match self {
            ValueLiteral::Int(i) => Some(*i),
            _ => None,
        }
    }

    /// The float's text.
    pub fn as_float(&self) -> (r: Option<&str>)
        ensures
            r is Some <==> self is Float,
            r is Some ==> r->0@ == self->Float_0@,
    {
        match self {
            ValueLiteral::Float(s) => Some(s.as_str()),
            _ => None,
        }
    }

    pub fn as_text(&self) -> (r: Option<&str>)
        ensures
            r is Some <==> self is Text,
            r is Some ==> r->0@ == self->Text_0@,
    {
        match self {
            ValueLiteral::Text(s) => Some(s.as_str()),
            _ => None,
        }
    }

    pub fn as_blob(&self) -> (r: Option<&[u8]>)
        ensures
            r is Some <==> self is Blob,
            r is Some ==> r->0@ == self->Blob_0@,
    {
        match self {
            ValueLiteral::Blob(b) => Some(b.as_slice()),
            _ => None,
        }
    }

    pub fn to_display(&self) -> (r: String)
        ensures
            r@ == self.display(),
    {
        match self {
            ValueLiteral::Null => String::from_str("NULL"),
            ValueLiteral::Boolean(b) => if *b {
                String::from_str("true")
            } else {
                String::from_str("false")
            },
            ValueLiteral::Int(i) => i64_to_text(*i),
            ValueLiteral::Float(s) => s.clone(),
            ValueLiteral::Text(s) => s.clone(),
            ValueLiteral::Blob(b) => {
                let mut out = String::from_str("0x");
                let table = [
                    '0', '1', '2', '3', '4', '5', '6', '7', '8', '9', 'a', 'b', 'c', 'd', 'e', 'f',
                ];
                assert(table@ == seq![
                    '0', '1', '2', '3', '4', '5', '6', '7', '8', '9', 'a', 'b', 'c', 'd', 'e', 'f',
                ]);
                let mut i: usize = 0;
                while i < b.len()
                    invariant
                        i <= b.len(),
                        table@ == seq![
                            '0', '1', '2', '3', '4', '5', '6', '7', '8', '9', 'a', 'b', 'c', 'd', 'e', 'f',
                        ],
                        out@ == "0x"@ + hex_of(b@.take(i as int)),
                    decreases b.len() - i,
                {
                    let x = b[i];
                    crate::text::push_char(&mut out, table[(x / 16) as usize]);
                    crate::text::push_char(&mut out, table[(x % 16) as usize]);
                    assert(b@.take(i + 1).drop_last() == b@.take(i as int));
                    assert(out@ == "0x"@ + hex_of(b@.take(i + 1)));
                    i = i + 1;
                }
                assert(b@.take(b.len() as int) == b@);
                out
            },
        }
    }
}

/// A value with the type it was read as.
#[derive(Debug, Clone)]
pub struct TypedValue {
    pub dtype: DataType,
    pub value: ValueLiteral,
}

impl TypedValue {
    /// `NULL` for a null value, else the value and its type's SQL name in
    /// parentheses.
    pub open spec fn display(self) -> Seq<char> {
        match self.value {
            ValueLiteral::Null => "NULL"@,
            _ => self.value.display() + " ("@ + self.dtype.sql_name() + ")"@,
        }
    }

    pub fn to_display(&self) -> (r: String)
        ensures
            r@ == self.display(),
    {
        match &self.value {
            ValueLiteral::Null => String::from_str("NULL"),
            _ => {
                let mut out = self.value.to_display();
                out.append(" (");
                out.append(self.dtype.as_str());
                out.append(")");
                out
            },
        }
    }
}

/// One column: its name, its type and whether it may hold nulls.
#[derive(Debug, Clone)]
pub struct SchemaField {
    pub name: String,
    pub dtype: DataType,
    pub nullable: bool,
}

/// The ordered columns of a table.
#[derive(Debug, Clone)]
pub struct Schema {
    pub fields: Vec<SchemaField>,
}

/// One line of the schema tree: name, type and nullability of a column.
pub open spec fn field_line(f: SchemaField) -> Seq<char> {
    " |-- "@ + f.name@ + ": "@ + f.dtype.variant_name() + " (nullable = "@ + (if f.nullable {
        "true"@
    } else {
        "false"@
    }) + ")\n"@
}

/// The lines of some columns, in order.
pub open spec fn field_lines(fs: Seq<SchemaField>) -> Seq<char>
    decreases fs.len(),
{
    if fs.len() == 0 {
        Seq::empty()
    } else {
        field_lines(fs.drop_last()) + field_line(fs.last())
    }
}

impl Schema {
    /// The schema as a tree: a `root` line, then a line per column.
    pub fn tree(&self) -> (r: String)
        ensures
            r@ == "root\n"@ + field_lines(self.fields@),
    {
        let mut out = String::from_str("root\n");
        let mut i: usize = 0;
        while i < self.fields.len()
            invariant
                i <= self.fields.len(),
                out@ == "root\n"@ + field_lines(self.fields@.take(i as int)),
            decreases self.fields.len() - i,
        {
            let f = &self.fields[i];
            assert(self.fields@.take(i + 1).drop_last() == self.fields@.take(i as int));
            out.append(" |-- ");
            out.append(f.name.as_str());
            out.append(": ");
            out.append(f.dtype.name());
            out.append(" (nullable = ");
            out.append(if f.nullable { "true" } else { "false" });
            out.append(")\n");
            i = i + 1;
        }
        assert(self.fields@.take(i as int) == self.fields@);
        out
    }

    pub fn field_names(&self) -> (r: Vec<String>)
        ensures
            r.len() == self.fields.len(),
            forall|i: int| 0 <= i < r.len() ==> #[trigger] r[i]@ == self.fields[i].name@,
    {
        let mut out: Vec<String> = Vec::new();
        let mut i: usize = 0;
        while i < self.fields.len()
            invariant
                i <= self.fields.len(),
                out.len() == i,
                forall|k: int| 0 <= k < i ==> #[trigger] out[k]@ == self.fields[k].name@,
            decreases self.fields.len() - i,
        {
            out.push(self.fields[i].name.clone());
            i = i + 1;
        }
        out
    }

    pub fn field_types(&self) -> (r: Vec<DataType>)
        ensures
            r.len() == self.fields.len(),
            forall|i: int| 0 <= i < r.len() ==> #[trigger] r[i] == self.fields[i].dtype,
    {
        let mut out: Vec<DataType> = Vec::new();
        let mut i: usize = 0;
        while i < self.fields.len()
            invariant
                i <= self.fields.len(),
                out.len() == i,
                forall|k: int| 0 <= k < i ==> #[trigger] out[k] == self.fields[k].dtype,
            decreases self.fields.len() - i,
        {
            out.push(self.fields[i].dtype);
            i = i + 1;
        }
        out
    }
}

} // verus!
