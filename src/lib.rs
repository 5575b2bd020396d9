//! Typed readers, type inference and predicate pushdown for remote tabular
//! data.
//!
//! - `schema`: column types, literal values, schemas.
//! - `inference`: the type lattice that samples of a column are joined in.
//! - `reader`, `csv_reader`, `avro_reader`, `any_reader`: readers that give a
//!   schema and typed rows for delimited text and for decoded binary records.
//! - `pushdown`: the plan of taken constraints and the token that carries it.
//! - `filter`: the in-memory table, predicates applied to it, and the cursor
//!   over the filtered view.
//! - `storage`, `persist`, `args`: table options, and the SQL text of the
//!   persisted copy of a table.
//! - `text`, `numeric`: the character- and number-level text forms used
//!   throughout.
pub mod any_reader;
pub mod args;
pub mod avro_reader;
pub mod csv_reader;
pub mod filter;
pub mod inference;
pub mod numeric;
pub mod persist;
pub mod pushdown;
pub mod reader;
pub mod schema;
pub mod storage;
pub mod text;
