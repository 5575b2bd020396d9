//! Execution side of predicate pushdown: the in-memory table, the
//! predicates read back from a token applied to it, and the cursor that
//! walks the filtered view.
use vstd::prelude::*;
use vstd::string::StringExecFns;
use crate::numeric::{nat_digits, slice_vec, u64_to_text};
use crate::pushdown::{decode_index, decoded, encode, lemma_plan_round_trip, taken, Constraint, ConstraintOp, Predicate};
use crate::text::{chars_of, trim, trim_bounds};

verus! {

/// The numeric reading of a value: a key ordered as the numbers are, or
/// not-a-number, which compares unequal to everything.
#[derive(Debug, Clone, Copy, PartialEq, Eq, Structural)]
pub enum NumKey {
    NaN,
    Ordered(i64),
}

/// One cell, or one runtime argument: its text, and its numeric reading
/// when the text reads as a number.
#[derive(Debug, Clone)]
pub struct Cell {
    pub text: String,
    pub number: Option<NumKey>,
}

/// Lexicographic order of two texts by char: negative, zero or positive.
pub open spec fn text_cmp(a: Seq<char>, b: Seq<char>) -> int
    decreases a.len(),
{
    if a.len() == 0 && b.len() == 0 {
        0
    } else if a.len() == 0 {
        -1
    } else if b.len() == 0 {
        1
    } else if (a[0] as u32) < (b[0] as u32) {
        -1
    } else if (a[0] as u32) > (b[0] as u32) {
        1
    } else {
        text_cmp(a.drop_first(), b.drop_first())
    }
}

/// Whether `op` holds of an order result `c` (negative, zero, positive).
pub open spec fn order_holds(c: int, op: ConstraintOp) -> bool {
    match op {
        ConstraintOp::Eq => c == 0,
        ConstraintOp::Gt => c > 0,
        ConstraintOp::Lt => c < 0,
        ConstraintOp::Ge => c >= 0,
        ConstraintOp::Le => c <= 0,
        ConstraintOp::Ne => c != 0,
        ConstraintOp::Other => false,
    }
}

/// Numeric comparison: ordered keys compare as integers; not-a-number
/// satisfies only `!=`.
pub open spec fn num_holds(x: NumKey, y: NumKey, op: ConstraintOp) -> bool {
    match (x, y) {
        (NumKey::Ordered(a), NumKey::Ordered(b)) => order_holds(
            if a < b {
                -1
            } else if a > b {
                1
            } else {
                0
            },
            op,
        ),
        _ => op == ConstraintOp::Ne,
    }
}

/// Whether `cell op arg` holds: numerically when both read as numbers, else
/// on the cell's trimmed text against the argument's text.
pub open spec fn holds(cell: Cell, arg: Cell, op: ConstraintOp) -> bool {
    if cell.number is Some && arg.number is Some {
        num_holds(cell.number->0, arg.number->0, op)
    } else {
        order_holds(text_cmp(trim(cell.text@), arg.text@), op)
    }
}

fn text_compare(a: &Vec<char>, b: &Vec<char>) -> (r: i8)
    ensures
        r as int == text_cmp(a@, b@),
{
    let mut i: usize = 0;
    assert(a@.skip(0) == a@);
    assert(b@.skip(0) == b@);
    while i < a.len() && i < b.len() && a[i] as u32 == b[i] as u32
        invariant
            i <= a.len(),
            i <= b.len(),
            text_cmp(a@, b@) == text_cmp(a@.skip(i as int), b@.skip(i as int)),
        decreases a.len() - i,
    {
        assert(a@.skip(i as int).drop_first() == a@.skip(i + 1));
        assert(b@.skip(i as int).drop_first() == b@.skip(i + 1));
        i = i + 1;
    }
    let ghost sa = a@.skip(i as int);
    let ghost sb = b@.skip(i as int);
    assert(sa.len() == a.len() - i && sb.len() == b.len() - i);
    if i < a.len() {
        assert(sa[0] == a@[i as int]);
    }
    if i < b.len() {
        assert(sb[0] == b@[i as int]);
    }
    if i == a.len() && i == b.len() {
        0
    } else if i == a.len() {
        -1
    } else if i == b.len() {
        1
    } else if (a[i] as u32) < (b[i] as u32) {
        -1
    } else {
        1
    }
}

fn order_check(c: i8, op: ConstraintOp) -> (r: bool)
    ensures
        r == order_holds(c as int, op),
{
    match op {
        ConstraintOp::Eq => c == 0,
        ConstraintOp::Gt => c > 0,
        ConstraintOp::Lt => c < 0,
        ConstraintOp::Ge => c >= 0,
        ConstraintOp::Le => c <= 0,
        ConstraintOp::Ne => c != 0,
        ConstraintOp::Other => false,
    }
}

/// Compares a cell with an argument under `op`.
pub fn compare(cell: &Cell, arg: &Cell, op: ConstraintOp) -> (r: bool)
    ensures
        r == holds(*cell, *arg, op),
{
    match (cell.number, arg.number) {
        (Some(x), Some(y)) => match (x, y) {
            (NumKey::Ordered(a), NumKey::Ordered(b)) => {
                let c: i8 = if a < b {
                    -1
                } else if a > b {
                    1
                } else {
                    0
                };
                order_check(c, op)
            },
            _ => op == ConstraintOp::Ne,
        },
        _ => {
            let v = chars_of(cell.text.as_str());
            let (lo, hi) = trim_bounds(&v);
            let t = slice_vec(&v, lo, hi);
            let w = chars_of(arg.text.as_str());
            order_check(text_compare(&t, &w), op)
        },
    }
}

/// Why a filter could not be applied.
#[derive(Debug, Clone, Copy, PartialEq, Eq, Structural)]
pub enum FilterError {
    /// A predicate names a column the table does not have.
    ColumnOutOfRange(usize),
    /// A predicate's argument slot has no runtime value.
    MissingArgument(usize),
}

/// An in-memory table: column names and rows of cells.
#[derive(Debug, Clone)]
pub struct Table {
    pub headers: Vec<String>,
    pub rows: Vec<Vec<Cell>>,
}

impl Table {
    /// Every row has one cell per column.
    pub open spec fn wf(&self) -> bool {
        forall|i: int| 0 <= i < self.rows.len() ==> (#[trigger] self.rows[i]).len()
            == self.headers.len()
    }
}

/// Every predicate names a column below `ncols` and a slot below `nargs`.
pub open spec fn plan_fits(preds: Seq<Option<Predicate>>, ncols: nat, nargs: nat) -> bool {
    forall|i: int|
        0 <= i < preds.len() && #[trigger] preds[i] is Some ==> preds[i]->0.column < ncols && i
            < nargs
}

/// Whether a row meets every predicate against the argument of its slot.
pub open spec fn row_passes(
    row: Seq<Cell>,
    preds: Seq<Option<Predicate>>,
    args: Seq<Cell>,
) -> bool {
    forall|i: int|
        0 <= i < preds.len() && #[trigger] preds[i] is Some ==> holds(
            row[preds[i]->0.column as int],
            args[i],
            preds[i]->0.op,
        )
}

/// The positions, in order, of the first `n` rows that pass.
pub open spec fn kept(
    rows: Seq<Vec<Cell>>,
    preds: Seq<Option<Predicate>>,
    args: Seq<Cell>,
    n: nat,
) -> Seq<usize>
    decreases n,
{
    if n == 0 {
        Seq::empty()
    } else {
        let prev = kept(rows, preds, args, (n - 1) as nat);
        if row_passes(rows[n - 1]@, preds, args) {
            prev.push((n - 1) as usize)
        } else {
            prev
        }
    }
}

fn check_plan(preds: &Vec<Option<Predicate>>, ncols: usize, nargs: usize) -> (r: Result<
    (),
    FilterError,
>)
    ensures
        r is Ok <==> plan_fits(preds@, ncols as nat, nargs as nat),
{
    let mut i: usize = 0;
    while i < preds.len()
        invariant
            i <= preds.len(),
            forall|k: int|
                0 <= k < i && #[trigger] preds@[k] is Some ==> preds@[k]->0.column < ncols && k
                    < nargs,
        decreases preds.len() - i,
    {
        match preds[i] {
            Some(p) => {
                if p.column >= ncols {
                    assert(preds@[i as int] is Some);
                    return Err(FilterError::ColumnOutOfRange(p.column));
                }
                if i >= nargs {
                    assert(preds@[i as int] is Some);
                    return Err(FilterError::MissingArgument(i));
                }
            },
            None => {},
        }
        i = i + 1;
    }
    Ok(())
}

fn passes(row: &Vec<Cell>, preds: &Vec<Option<Predicate>>, args: &Vec<Cell>) -> (r: bool)
    requires
        plan_fits(preds@, row.len() as nat, args.len() as nat),
    ensures
        r == row_passes(row@, preds@, args@),
{
    let mut i: usize = 0;
    while i < preds.len()
        invariant
            i <= preds.len(),
            plan_fits(preds@, row.len() as nat, args.len() as nat),
            forall|k: int|
                0 <= k < i && #[trigger] preds@[k] is Some ==> holds(
                    row@[preds@[k]->0.column as int],
                    args@[k],
                    preds@[k]->0.op,
                ),
        decreases preds.len() - i,
    {
        match preds[i] {
            Some(p) => {
                assert(preds@[i as int] is Some);
                if !compare(&row[p.column], &args[i], p.op) {
                    return false;
                }
            },
            None => {},
        }
        i = i + 1;
    }
    true
}

/// Applies predicates read back from a token, each against the runtime
/// argument of its slot, and gives the positions of the rows that pass them
/// all. The table is not changed.
pub fn apply_filter(table: &Table, preds: &Vec<Option<Predicate>>, args: &Vec<Cell>) -> (r: Result<
    Vec<usize>,
    FilterError,
>)
    requires
        table.wf(),
    ensures
        r is Ok <==> plan_fits(preds@, table.headers.len() as nat, args.len() as nat),
        r is Ok ==> r->Ok_0@ == kept(table.rows@, preds@, args@, table.rows.len() as nat),
{
    check_plan(preds, table.headers.len(), args.len())?;
    let mut view: Vec<usize> = Vec::new();
    let mut i: usize = 0;
    while i < table.rows.len()
        invariant
            i <= table.rows.len(),
            table.wf(),
            plan_fits(preds@, table.headers.len() as nat, args.len() as nat),
            view@ == kept(table.rows@, preds@, args@, i as nat),
        decreases table.rows.len() - i,
    {
        let row = &table.rows[i];
        assert(row.len() == table.headers.len());
        if passes(row, preds, args) {
            view.push(i);
        }
        i = i + 1;
    }
    Ok(view)
}

/// The positions of the first `n` rows that meet each taken predicate
/// against the argument at the same position.
pub open spec fn kept_direct(
    rows: Seq<Vec<Cell>>,
    ps: Seq<Predicate>,
    args: Seq<Cell>,
    n: nat,
) -> Seq<usize>
    decreases n,
{
    if n == 0 {
        Seq::empty()
    } else {
        let prev = kept_direct(rows, ps, args, (n - 1) as nat);
        if forall|i: int|
            0 <= i < ps.len() ==> holds(
                rows[n - 1]@[(#[trigger] ps[i]).column as int],
                args[i],
                ps[i].op,
            ) {
            prev.push((n - 1) as usize)
        } else {
            prev
        }
    }
}

/// Writing the taken constraints into a token and reading it back selects
/// the same rows as applying the taken constraints directly, with the
/// arguments in the same order.
pub proof fn lemma_token_filter_matches_direct(
    rows: Seq<Vec<Cell>>,
    cs: Seq<Constraint>,
    args: Seq<Cell>,
    n: nat,
)
    ensures
        kept(rows, decoded(encode(taken(cs))), args, n) == kept_direct(rows, taken(cs), args, n),
    decreases n,
{
    lemma_plan_round_trip(cs);
    if n > 0 {
        lemma_token_filter_matches_direct(rows, cs, args, (n - 1) as nat);
        let ps = taken(cs);
        let preds = decoded(encode(ps));
        let row = rows[n - 1]@;
        if ps.len() > 0 {
            assert forall|i: int| 0 <= i < preds.len() && #[trigger] preds[i] is Some implies preds[i]->0
                == ps[i] by {}
            if row_passes(row, preds, args) {
                assert forall|i: int| 0 <= i < ps.len() implies holds(
                    row[(#[trigger] ps[i]).column as int],
                    args[i],
                    ps[i].op,
                ) by {
                    assert(preds[i] is Some);
                }
            }
        }
    }
}

/// The predicates a cursor is reset with: those read back from the token,
/// or none without one.
pub open spec fn token_preds(idx_str: Option<&str>) -> Seq<Option<Predicate>> {
    match idx_str {
        Some(t) => decoded(t@),
        None => Seq::empty(),
    }
}

/// A walk over a filtered view of a table. The view holds the positions of
/// the rows that passed, and `row_idx` is the row identity: the ordinal
/// within the view.
#[derive(Debug, Clone)]
pub struct TableCursor {
    pub view: Vec<usize>,
    pub row_idx: usize,
}

impl TableCursor {
    /// The cursor one step on; at the end it stays.
    pub open spec fn advanced(self) -> TableCursor {
        if self.row_idx < self.view.len() {
            TableCursor { view: self.view, row_idx: (self.row_idx + 1) as usize }
        } else {
            self
        }
    }

    /// The cursor after `k` steps.
    pub open spec fn advanced_by(self, k: nat) -> TableCursor
        decreases k,
    {
        if k == 0 {
            self
        } else {
            self.advanced_by((k - 1) as nat).advanced()
        }
    }

    /// A cursor over all rows of `table`, at the first.
    pub fn new(table: &Table) -> (r: TableCursor)
        ensures
            r.row_idx == 0,
            r.view.len() == table.rows.len(),
            forall|i: int| 0 <= i < r.view.len() ==> r.view[i] == i,
    {
        let mut view: Vec<usize> = Vec::new();
        let mut i: usize = 0;
        while i < table.rows.len()
            invariant
                i <= table.rows.len(),
                view.len() == i,
                forall|k: int| 0 <= k < i ==> view[k] == k,
            decreases table.rows.len() - i,
        {
            view.push(i);
            i = i + 1;
        }
        TableCursor { view, row_idx: 0 }
    }

    /// Filters the base table afresh with the predicates of `idx_str` and
    /// the runtime arguments of their slots, and goes to the first row of
    /// the new view. On an error the cursor is left as it was.
    pub fn reset(&mut self, table: &Table, idx_str: Option<&str>, args: &Vec<Cell>) -> (r: Result<
        (),
        FilterError,
    >)
        requires
            table.wf(),
        ensures
            r is Ok <==> plan_fits(
                token_preds(idx_str),
                table.headers.len() as nat,
                args.len() as nat,
            ),
            r is Ok ==> final(self).view@ == kept(
                table.rows@,
                token_preds(idx_str),
                args@,
                table.rows.len() as nat,
            ) && final(self).row_idx == 0,
            r is Err ==> *final(self) == *old(self),
    {
        let preds: Vec<Option<Predicate>> = match idx_str {
            Some(t) => decode_index(t),
            None => Vec::new(),
        };
        assert(preds@ == token_preds(idx_str));
        let view = apply_filter(table, &preds, args)?;
        self.view = view;
        self.row_idx = 0;
        Ok(())
    }

    /// Steps to the next row of the view.
    pub fn advance(&mut self)
        ensures
            *final(self) == old(self).advanced(),
    {
        if self.row_idx < self.view.len() {
            self.row_idx = self.row_idx + 1;
        }
    }

    pub fn at_end(&self) -> (r: bool)
        ensures
            r == (self.row_idx >= self.view.len()),
    {
        self.row_idx >= self.view.len()
    }

    /// The row identity: the ordinal of the current row within the view.
    pub fn position(&self) -> (r: usize)
        ensures
            r == self.row_idx,
    {
        self.row_idx
    }

    /// The position in the base table of the current row.
    pub fn current(&self) -> (r: Option<usize>)
        ensures
            r == if self.row_idx < self.view.len() {
                Some(self.view[self.row_idx as int])
            } else {
                None::<usize>
            },
    {
        if self.row_idx < self.view.len() {
            Some(self.view[self.row_idx])
        } else {
            None
        }
    }

    /// Cell `i` of the current row.
    pub fn column<'t>(&self, table: &'t Table, i: usize) -> (r: Option<&'t Cell>)
        ensures
            r is Some <==> (self.row_idx < self.view.len() && self.view[self.row_idx as int]
                < table.rows.len() && i < table.rows[self.view[self.row_idx as int] as int].len()),
            r is Some ==> *r->0 == table.rows[self.view[self.row_idx as int] as int][i as int],
    {
        if self.row_idx < self.view.len() {
            let at = self.view[self.row_idx];
            if at < table.rows.len() && i < table.rows[at].len() {
                return Some(&table.rows[at][i]);
            }
        }
        None
    }
}

/// After a filter, stepping through the view visits row identities 0, 1,
/// 2, ... with no gap: after `k` steps the identity is `k` and the view is
/// unchanged, for every `k` up to the view's length.
pub proof fn lemma_row_identities_dense(c: TableCursor, k: nat)
    requires
        c.row_idx == 0,
        k <= c.view.len(),
    ensures
        c.advanced_by(k).row_idx == k,
        c.advanced_by(k).view == c.view,
    decreases k,
{
    if k > 0 {
        lemma_row_identities_dense(c, (k - 1) as nat);
    }
}

/// Why stored rows could not be made into a table.
#[derive(Debug, Clone, Copy, PartialEq, Eq, Structural)]
pub enum TableError {
    NoData,
    ShapeMismatch,
}

/// The name of column `i`: the stored header when there is one, else
/// `column_<i>`.
pub open spec fn column_name(headers: Option<Vec<String>>, i: nat) -> Seq<char> {
    match headers {
        Some(h) if i < h.len() => h@[i as int]@,
        _ => "column_"@ + nat_digits(i),
    }
}

/// Rebuilds a table from stored rows. Fails when there is no row or the
/// rows differ in length.
pub fn table_from_rows(data: Vec<Vec<Cell>>, headers: Option<Vec<String>>) -> (r: Result<
    Table,
    TableError,
>)
    ensures
        data.len() == 0 ==> r == Err::<Table, TableError>(TableError::NoData),
        data.len() > 0 ==> (r is Err <==> exists|i: int|
            0 <= i < data.len() && (#[trigger] data[i]).len() != data[0].len()),
        data.len() > 0 && r is Err ==> r == Err::<Table, TableError>(TableError::ShapeMismatch),
        r is Ok ==> {
            let t = r->Ok_0;
            &&& t.wf()
            &&& t.rows@ == data@
            &&& t.headers.len() == data[0].len()
            &&& forall|i: int|
                0 <= i < t.headers.len() ==> #[trigger] t.headers[i]@ == column_name(headers, i as nat)
        },
{
    if data.len() == 0 {
        return Err(TableError::NoData);
    }
    let n = data[0].len();
    let mut i: usize = 0;
    while i < data.len()
        invariant
            i <= data.len(),
            n == data[0].len(),
            forall|k: int| 0 <= k < i ==> (#[trigger] data[k]).len() == n,
        decreases data.len() - i,
    {
        if data[i].len() != n {
            return Err(TableError::ShapeMismatch);
        }
        i = i + 1;
    }
    let mut names: Vec<String> = Vec::new();
    let mut j: usize = 0;
    while j < n
        invariant
            j <= n,
            names.len() == j,
            forall|k: int| 0 <= k < j ==> #[trigger] names[k]@ == column_name(headers, k as nat),
        decreases n - j,
    {
        let name = match &headers {
            Some(h) if j < h.len() => h[j].clone(),
            _ => {
                let mut s = String::from_str("column_");
                let digits = u64_to_text(j as u64);
                s.append(digits.as_str());
                s
            },
        };
        names.push(name);
        j = j + 1;
    }
    Ok(Table { headers: names, rows: data })
}

} // verus!
