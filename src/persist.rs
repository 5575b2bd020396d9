//! The persisted copy of a table: whether to fetch or rebuild, and the SQL
//! text that stores a freshly read table's schema and rows.
use vstd::prelude::*;
use vstd::string::StringExecFns;
use crate::numeric::{i64_to_text, int_digits};
use crate::reader::Row;
use crate::schema::{DataType, ValueLiteral};
use crate::storage::{escape_sql_string, sql_escaped};
use crate::text::push_char;

verus! {

/// Rows go into the data table this many at a time.
pub const INSERT_BATCH_SIZE: usize = 1000;

/// `items` joined by `sep`.
pub open spec fn join(items: Seq<Seq<char>>, sep: Seq<char>) -> Seq<char>
    decreases items.len(),
{
    if items.len() == 0 {
        Seq::empty()
    } else if items.len() == 1 {
        items[0]
    } else {
        join(items.drop_last(), sep) + sep + items.last()
    }
}

/// Joins the strings of `parts` with `sep` between them.
pub fn join_strings(parts: &Vec<String>, sep: &str) -> (r: String)
    ensures
        r@ == join(parts@.map_values(|s: String| s@), sep@),
{
    let ghost items = parts@.map_values(|s: String| s@);
    let mut out = String::new();
    let mut i: usize = 0;
    while i < parts.len()
        invariant
            i <= parts.len(),
            items == parts@.map_values(|s: String| s@),
            out@ == join(items.take(i as int), sep@),
        decreases parts.len() - i,
    {
        assert(items.take(i + 1).drop_last() == items.take(i as int));
        if i > 0 {
            out.append(sep);
        } else {
            assert(items.take(1) == seq![items[0]]);
        }
        out.append(parts[i].as_str());
        i = i + 1;
    }
    assert(items.take(i as int) == items);
    out
}

/// `s` in double quotes.
pub open spec fn quoted(s: Seq<char>) -> Seq<char> {
    seq!['"'] + s + seq!['"']
}

/// Whether a table must be fetched and parsed: only on first creation, and
/// only when no persisted copy exists; otherwise it is rebuilt from the
/// persisted rows.
pub fn should_fetch(is_created: bool, has_metadata: bool) -> (r: bool)
    ensures
        r == (is_created && !has_metadata),
{
    is_created && !has_metadata
}

/// The header line stored with a table: each name in double quotes, joined
/// by `", "`.
pub fn header_line(names: &Vec<String>) -> (r: String)
    ensures
        r@ == join(names@.map_values(|s: String| quoted(s@)), ", "@),
{
    let mut parts: Vec<String> = Vec::new();
    let mut i: usize = 0;
    while i < names.len()
        invariant
            i <= names.len(),
            parts.len() == i,
            forall|k: int| 0 <= k < i ==> #[trigger] parts[k]@ == quoted(names[k]@),
        decreases names.len() - i,
    {
        let mut q = String::new();
        push_char(&mut q, '"');
        q.append(names[i].as_str());
        push_char(&mut q, '"');
        parts.push(q);
        i = i + 1;
    }
    assert(parts@.map_values(|s: String| s@) == names@.map_values(|s: String| quoted(s@)));
    join_strings(&parts, ", ")
}

/// The column definitions of a table: each name in double quotes, a space
/// and its SQL type name, joined by `", "`.
pub open spec fn column_defs(names: Seq<String>, types: Seq<DataType>) -> Seq<char> {
    join(
        Seq::new(names.len(), |i: int| quoted(names[i]@) + " "@ + types[i].sql_name()),
        ", "@,
    )
}

pub fn columns_def(names: &Vec<String>, types: &Vec<DataType>) -> (r: String)
    requires
        names.len() == types.len(),
    ensures
        r@ == column_defs(names@, types@),
{
    let mut parts: Vec<String> = Vec::new();
    let mut i: usize = 0;
    while i < names.len()
        invariant
            i <= names.len() == types.len(),
            parts.len() == i,
            forall|k: int|
                0 <= k < i ==> #[trigger] parts[k]@ == quoted(names[k]@) + " "@ + types[k].sql_name(),
        decreases names.len() - i,
    {
        let mut q = String::new();
        push_char(&mut q, '"');
        q.append(names[i].as_str());
        push_char(&mut q, '"');
        q.append(" ");
        q.append(types[i].as_str());
        parts.push(q);
        i = i + 1;
    }
    assert(parts@.map_values(|s: String| s@) == Seq::new(
        names@.len(),
        |i: int| quoted(names@[i]@) + " "@ + types@[i].sql_name(),
    ));
    join_strings(&parts, ", ")
}

/// A value as an SQL literal: `NULL`, `1` or `0` for booleans, the number
/// itself, and anything else as a single-quoted, escaped string.
pub open spec fn sql_literal(v: ValueLiteral) -> Seq<char> {
    match v {
        ValueLiteral::Null => "NULL"@,
        ValueLiteral::Boolean(b) => if b {
            "1"@
        } else {
            "0"@
        },
        ValueLiteral::Int(i) => int_digits(i as int),
        ValueLiteral::Float(s) => s@,
        _ => seq!['\''] + sql_escaped(v.display()) + seq!['\''],
    }
}

/// Writes a value as an SQL literal.
pub fn df_value_to_sqlite_value(value: &ValueLiteral) -> (r: String)
    ensures
        r@ == sql_literal(*value),
{
    match value {
        ValueLiteral::Null => String::from_str("NULL"),
        ValueLiteral::Boolean(b) => String::from_str(
            if *b {
                "1"
            } else {
                "0"
            },
        ),
        ValueLiteral::Int(i) => i64_to_text(*i),
        ValueLiteral::Float(s) => s.clone(),
        _ => {
            let shown = value.to_display();
            let mut out = String::new();
            push_char(&mut out, '\'');
            out.append(escape_sql_string(shown.as_str()).as_str());
            push_char(&mut out, '\'');
            out
        },
    }
}

/// One row as a parenthesised tuple of SQL literals.
pub open spec fn row_tuple(r: Row) -> Seq<char> {
    "("@ + join(r.0@.map_values(|t: crate::schema::TypedValue| sql_literal(t.value)), ", "@)
        + ")"@
}

fn row_sql(row: &Row) -> (r: String)
    ensures
        r@ == row_tuple(*row),
{
    let mut parts: Vec<String> = Vec::new();
    let mut i: usize = 0;
    while i < row.0.len()
        invariant
            i <= row.0.len(),
            parts.len() == i,
            forall|k: int| 0 <= k < i ==> #[trigger] parts[k]@ == sql_literal(row.0[k].value),
        decreases row.0.len() - i,
    {
        parts.push(df_value_to_sqlite_value(&row.0[i].value));
        i = i + 1;
    }
    assert(parts@.map_values(|s: String| s@) == row.0@.map_values(
        |t: crate::schema::TypedValue| sql_literal(t.value),
    ));
    let mut out = String::from_str("(");
    out.append(join_strings(&parts, ", ").as_str());
    out.append(")");
    out
}

/// The statement that inserts some rows into the data table of
/// `module.table`.
pub open spec fn insert_sql(
    module: Seq<char>,
    table: Seq<char>,
    cols: Seq<char>,
    rows: Seq<Row>,
) -> Seq<char> {
    "INSERT INTO \""@ + module + "."@ + table + "_data\" ("@ + cols + ") VALUES\n"@ + join(
        rows.map_values(|r: Row| row_tuple(r)),
        ",\n"@,
    ) + ";"@
}

/// The insert statements for all rows, `batch` rows per statement, in order.
pub open spec fn batched_inserts(
    module: Seq<char>,
    table: Seq<char>,
    cols: Seq<char>,
    rows: Seq<Row>,
    batch: nat,
) -> Seq<Seq<char>>
    decreases rows.len(),
{
    if rows.len() == 0 || batch == 0 {
        Seq::empty()
    } else if rows.len() <= batch {
        seq![insert_sql(module, table, cols, rows)]
    } else {
        seq![insert_sql(module, table, cols, rows.take(batch as int))] + batched_inserts(
            module,
            table,
            cols,
            rows.skip(batch as int),
            batch,
        )
    }
}

/// Writes the insert statements that store `rows` in the data table of
/// `module.table`, `batch_size` rows per statement.
pub fn generate_inserts_from_dataframe(
    rows: &Vec<Row>,
    module_name: &str,
    table_name: &str,
    columns_def: &str,
    batch_size: usize,
) -> (r: Vec<String>)
    requires
        batch_size > 0,
    ensures
        r@.map_values(|s: String| s@) == batched_inserts(
            module_name@,
            table_name@,
            columns_def@,
            rows@,
            batch_size as nat,
        ),
{
    let mut inserts: Vec<String> = Vec::new();
    let mut start: usize = 0;
    let n = rows.len();
    assert(rows@.skip(0) == rows@);
    assert(inserts@.map_values(|s: String| s@) == Seq::<Seq<char>>::empty());
    while start < n
        invariant
            start <= n == rows.len(),
            batch_size > 0,
            inserts@.map_values(|s: String| s@) + batched_inserts(
                module_name@,
                table_name@,
                columns_def@,
                rows@.skip(start as int),
                batch_size as nat,
            ) == batched_inserts(
                module_name@,
                table_name@,
                columns_def@,
                rows@,
                batch_size as nat,
            ),
        decreases n - start,
    {
        let end = if n - start <= batch_size {
            n
        } else {
            start + batch_size
        };
        let mut tuples: Vec<String> = Vec::new();
        let mut i: usize = start;
        while i < end
            invariant
                start <= i <= end <= n == rows.len(),
                tuples.len() == i - start,
                forall|k: int|
                    0 <= k < i - start ==> #[trigger] tuples[k]@ == row_tuple(rows[start + k]),
            decreases end - i,
        {
            tuples.push(row_sql(&rows[i]));
            i = i + 1;
        }
        let ghost chunk = rows@.subrange(start as int, end as int);
        assert(tuples@.map_values(|s: String| s@) == chunk.map_values(|r: Row| row_tuple(r)));
        let mut stmt = String::from_str("INSERT INTO \"");
        stmt.append(module_name);
        stmt.append(".");
        stmt.append(table_name);
        stmt.append("_data\" (");
        stmt.append(columns_def);
        stmt.append(") VALUES\n");
        stmt.append(join_strings(&tuples, ",\n").as_str());
        stmt.append(";");
        let ghost rest = rows@.skip(start as int);
        assert(rest.skip(batch_size as int) == rows@.skip(end as int) || end == n);
        assert(end < n ==> rest.take(batch_size as int) == chunk);
        assert(end == n ==> rest == chunk);
        assert(rows@.skip(n as int) == Seq::<Row>::empty());
        let ghost before = inserts@.map_values(|s: String| s@);
        inserts.push(stmt);
        assert(inserts@.map_values(|s: String| s@) == before.push(stmt@));
        start = end;
    }
    assert(rows@.skip(n as int) == Seq::<Row>::empty());
    inserts
}

/// The statement that creates the data table of `module.table`.
pub fn create_data_table_sql(module_name: &str, table_name: &str, columns_def: &str) -> (r: String)
    ensures
        r@ == "CREATE TABLE \""@ + module_name@ + "."@ + table_name@ + "_data\" ("@ + columns_def@
            + ");"@,
{
    let mut s = String::from_str("CREATE TABLE \"");
    s.append(module_name);
    s.append(".");
    s.append(table_name);
    s.append("_data\" (");
    s.append(columns_def);
    s.append(");");
    s
}

/// The statement that creates the metadata table of `module.table`.
pub fn create_metadata_sql(module_name: &str, table_name: &str) -> (r: String)
    ensures
        r@ == "CREATE TABLE \""@ + module_name@ + "."@ + table_name@
            + "_metadata\" (URL TEXT, FORMAT TEXT, HEADERS TEXT, COLUMN_TYPES TEXT);"@,
{
    let mut s = String::from_str("CREATE TABLE \"");
    s.append(module_name);
    s.append(".");
    s.append(table_name);
    s.append("_metadata\" (URL TEXT, FORMAT TEXT, HEADERS TEXT, COLUMN_TYPES TEXT);");
    s
}

/// The statement that records where a table came from, its header line and
/// its column types.
pub fn insert_metadata_sql(
    module_name: &str,
    table_name: &str,
    url: &str,
    format: &str,
    headers: &str,
    column_types: &str,
) -> (r: String)
    ensures
        r@ == "INSERT INTO\""@ + module_name@ + "."@ + table_name@
            + "_metadata\" (URL, FORMAT, HEADERS, COLUMN_TYPES) VALUES ('"@ + url@ + "', '"@
            + format@ + "', '"@ + headers@ + "', '"@ + column_types@ + "');"@,
{
    let mut s = String::from_str("INSERT INTO\"");
    s.append(module_name);
    s.append(".");
    s.append(table_name);
    s.append("_metadata\" (URL, FORMAT, HEADERS, COLUMN_TYPES) VALUES ('");
    s.append(url);
    s.append("', '");
    s.append(format);
    s.append("', '");
    s.append(headers);
    s.append("', '");
    s.append(column_types);
    s.append("');");
    s
}

/// The query that reads the stored header line back.
pub fn select_headers_sql(module_name: &str, table_name: &str) -> (r: String)
    ensures
        r@ == "SELECT HEADERS FROM \""@ + module_name@ + "."@ + table_name@ + "_metadata\";"@,
{
    let mut s = String::from_str("SELECT HEADERS FROM \"");
    s.append(module_name);
    s.append(".");
    s.append(table_name);
    s.append("_metadata\";");
    s
}

/// The query that reads the stored column types back.
pub fn select_column_types_sql(module_name: &str, table_name: &str) -> (r: String)
    ensures
        r@ == "SELECT COLUMN_TYPES FROM \""@ + module_name@ + "."@ + table_name@ + "_metadata\";"@,
{
    let mut s = String::from_str("SELECT COLUMN_TYPES FROM \"");
    s.append(module_name);
    s.append(".");
    s.append(table_name);
    s.append("_metadata\";");
    s
}

/// The query that reads the stored rows back.
pub fn select_data_sql(module_name: &str, table_name: &str) -> (r: String)
    ensures
        r@ == "SELECT * FROM  \""@ + module_name@ + "."@ + table_name@ + "_data\";"@,
{
    let mut s = String::from_str("SELECT * FROM  \"");
    s.append(module_name);
    s.append(".");
    s.append(table_name);
    s.append("_data\";");
    s
}

/// The query that tells whether a persisted copy exists.
pub fn has_metadata_sql(metadata_table: &str) -> (r: String)
    ensures
        r@ == "SELECT name FROM sqlite_master WHERE type = 'table' AND name = '"@
            + metadata_table@ + "';"@,
{
    let mut s = String::from_str("SELECT name FROM sqlite_master WHERE type = 'table' AND name = '");
    s.append(metadata_table);
    s.append("';");
    s
}

} // verus!
