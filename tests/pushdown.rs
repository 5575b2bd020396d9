use sqlite_httpfs::filter::{apply_filter, table_from_rows, Cell, FilterError, NumKey, Table, TableCursor, TableError};
use sqlite_httpfs::pushdown::{best_index, decode_index, Constraint, ConstraintOp, Predicate};

fn key(s: &str) -> Option<NumKey> {
    let x: f64 = s.parse().ok()?;
    if x.is_nan() {
        return Some(NumKey::NaN);
    }
    let x = if x == 0.0 { 0.0 } else { x };
    let b = x.to_bits() as i64;
    Some(NumKey::Ordered(if b < 0 { b ^ i64::MAX } else { b }))
}

fn ordered(c: &Cell) -> i64 {
    match c.number {
        Some(NumKey::Ordered(k)) => k,
        _ => panic!("not an ordered number"),
    }
}

fn cell(s: &str) -> Cell {
    Cell { text: s.to_string(), number: key(s.trim()) }
}

fn table(rows: &[&[&str]]) -> Table {
    let data: Vec<Vec<Cell>> = rows.iter().map(|r| r.iter().map(|s| cell(s)).collect()).collect();
    table_from_rows(data, Some(vec!["id".to_string(), "name".to_string()])).unwrap()
}

fn c(column: usize, op: ConstraintOp, usable: bool) -> Constraint {
    Constraint { column, op, usable }
}

#[test]
fn plan_takes_usable_pushable_constraints_in_order() {
    let cs = vec![
        c(0, ConstraintOp::Eq, true),
        c(1, ConstraintOp::Gt, false),
        c(12, ConstraintOp::Ne, true),
        c(3, ConstraintOp::Other, true),
        c(1, ConstraintOp::Le, true),
    ];
    let plan = best_index(&cs);
    assert_eq!(plan.idx_str, "0=,12!=,1<=");
    assert_eq!(plan.idx_num, 3);
    assert_eq!(plan.argv_index, vec![Some(1), None, Some(2), None, Some(3)]);
}

#[test]
fn empty_plan() {
    let plan = best_index(&vec![c(0, ConstraintOp::Eq, false)]);
    assert_eq!(plan.idx_str, "");
    assert_eq!(plan.idx_num, 0);
    assert_eq!(decode_index(""), vec![None]);
}

#[test]
fn token_reads_back() {
    let cs = vec![
        c(2, ConstraintOp::Ge, true),
        c(0, ConstraintOp::Lt, true),
        c(7, ConstraintOp::Gt, true),
    ];
    let plan = best_index(&cs);
    assert_eq!(
        decode_index(&plan.idx_str),
        vec![
            Some(Predicate { column: 2, op: ConstraintOp::Ge }),
            Some(Predicate { column: 0, op: ConstraintOp::Lt }),
            Some(Predicate { column: 7, op: ConstraintOp::Gt }),
        ]
    );
    assert_eq!(
        decode_index("x=,3=,4~"),
        vec![None, Some(Predicate { column: 3, op: ConstraintOp::Eq }), None]
    );
}

#[test]
fn equality_on_numeric_text_is_numeric() {
    let t = table(&[&["7", "a"], &["7.0", "b"], &["07", "c"], &["8", "d"], &["x7", "e"]]);
    let plan = best_index(&vec![c(0, ConstraintOp::Eq, true)]);
    let mut cur = TableCursor::new(&t);
    cur.reset(&t, Some(&plan.idx_str), &vec![cell("7")]).unwrap();
    assert_eq!(cur.view, vec![0, 1, 2]);
}

#[test]
fn text_comparison_when_not_both_numeric() {
    let t = table(&[&["1", "apple"], &["2", "banana"], &["3", "cherry"], &["4", "10"]]);
    let plan = best_index(&vec![c(1, ConstraintOp::Gt, true)]);
    let mut cur = TableCursor::new(&t);
    cur.reset(&t, Some(&plan.idx_str), &vec![cell("b")]).unwrap();
    assert_eq!(cur.view, vec![1, 2]);
    let plan = best_index(&vec![c(1, ConstraintOp::Lt, true)]);
    cur.reset(&t, Some(&plan.idx_str), &vec![cell("9")]).unwrap();
    // "10" < "9" numerically is false; "apple" etc. compare as text against "9"
    assert_eq!(cur.view, Vec::<usize>::new());
}

#[test]
fn predicates_are_conjoined_and_rowids_rebased() {
    let t = table(&[&["1", "a"], &["5", "b"], &["9", "c"], &["12", "d"], &["3", "e"]]);
    let cs = vec![c(0, ConstraintOp::Ge, true), c(0, ConstraintOp::Ne, true)];
    let plan = best_index(&cs);
    let mut cur = TableCursor::new(&t);
    cur.reset(&t, Some(&plan.idx_str), &vec![cell("3"), cell("9")]).unwrap();
    assert_eq!(cur.view, vec![1, 3, 4]);
    let mut ids = Vec::new();
    let mut names = Vec::new();
    while !cur.at_end() {
        ids.push(cur.position());
        names.push(cur.column(&t, 1).unwrap().text.clone());
        cur.advance();
    }
    assert_eq!(ids, vec![0, 1, 2]);
    assert_eq!(names, vec!["b", "d", "e"]);
    cur.advance();
    assert!(cur.at_end());
    assert_eq!(cur.current(), None);
}

#[test]
fn not_a_number_only_satisfies_not_equal() {
    let t = table(&[&["NaN", "a"], &["1", "b"]]);
    let ne = best_index(&vec![c(0, ConstraintOp::Ne, true)]);
    let eq = best_index(&vec![c(0, ConstraintOp::Eq, true)]);
    let mut cur = TableCursor::new(&t);
    cur.reset(&t, Some(&ne.idx_str), &vec![cell("1")]).unwrap();
    assert_eq!(cur.view, vec![0]);
    cur.reset(&t, Some(&eq.idx_str), &vec![cell("NaN")]).unwrap();
    assert_eq!(cur.view, Vec::<usize>::new());
}

#[test]
fn token_filter_equals_direct_application() {
    let t = table(&[&["1", "a"], &["5", "b"], &["9", "c"]]);
    let cs = vec![c(0, ConstraintOp::Gt, true), c(1, ConstraintOp::Le, true)];
    let args = vec![cell("2"), cell("b")];
    let plan = best_index(&cs);
    let via_token = apply_filter(&t, &decode_index(&plan.idx_str), &args).unwrap();
    let direct: Vec<usize> = (0..t.rows.len())
        .filter(|&i| {
            let r = &t.rows[i];
            ordered(&r[0]) > ordered(&cell("2")) && r[1].text.as_str() <= "b"
        })
        .collect();
    assert_eq!(via_token, direct);
    assert_eq!(via_token, vec![1]);
}

#[test]
fn filter_errors() {
    let t = table(&[&["1", "a"]]);
    let preds = decode_index("5=");
    assert_eq!(apply_filter(&t, &preds, &vec![cell("1")]), Err(FilterError::ColumnOutOfRange(5)));
    let preds = decode_index("0=,1=");
    assert_eq!(apply_filter(&t, &preds, &vec![cell("1")]), Err(FilterError::MissingArgument(1)));
    let mut cur = TableCursor::new(&t);
    cur.advance();
    assert!(cur.reset(&t, Some("0=,1="), &vec![cell("1")]).is_err());
    assert_eq!(cur.position(), 1);
    cur.reset(&t, None, &vec![]).unwrap();
    assert_eq!(cur.position(), 0);
    assert_eq!(cur.view, vec![0]);
}

#[test]
fn table_rebuild() {
    assert_eq!(table_from_rows(vec![], None).unwrap_err(), TableError::NoData);
    assert_eq!(
        table_from_rows(vec![vec![cell("1")], vec![]], None).unwrap_err(),
        TableError::ShapeMismatch
    );
    let t = table_from_rows(vec![vec![cell("1"), cell("2"), cell("3")]], Some(vec!["a".to_string()])).unwrap();
    assert_eq!(t.headers, vec!["a".to_string(), "column_1".to_string(), "column_2".to_string()]);
}
