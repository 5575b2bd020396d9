//! Planning side of predicate pushdown: the constraints the planner offers,
//! the ones taken, and the index token that carries them to execution.
use vstd::prelude::*;
use vstd::string::StringExecFns;
use crate::numeric::{all_digits, digits_up_to, digits_value, find_either, index_of, is_digit, lemma_nat_digits, nat_digits, slice_vec, u64_to_text};
use crate::text::{chars_eq, chars_of, push_char};

verus! {

/// A comparison operator offered by the planner. `Other` stands for the
/// operators that are not pushed down.
#[derive(Debug, Clone, Copy, PartialEq, Eq, Structural)]
pub enum ConstraintOp {
    Eq,
    Gt,
    Lt,
    Ge,
    Le,
    Ne,
    Other,
}

/// One constraint offered by the planner.
#[derive(Debug, Clone, Copy, PartialEq, Eq, Structural)]
pub struct Constraint {
    pub column: usize,
    pub op: ConstraintOp,
    pub usable: bool,
}

/// A constraint taken into the plan: its column and operator.
#[derive(Debug, Clone, Copy, PartialEq, Eq, Structural)]
pub struct Predicate {
    pub column: usize,
    pub op: ConstraintOp,
}

/// The plan handed back to the planner.
#[derive(Debug, Clone)]
pub struct IndexPlan {
    /// The taken constraints as `<column><operator>` items joined by commas.
    pub idx_str: String,
    /// How many constraints were taken.
    pub idx_num: usize,
    /// For each offered constraint, its 1-based argument slot, if taken.
    pub argv_index: Vec<Option<usize>>,
}

/// The text of an operator in the token.
pub open spec fn op_text(op: ConstraintOp) -> Seq<char> {
    match op {
        ConstraintOp::Eq => seq!['='],
        ConstraintOp::Gt => seq!['>'],
        ConstraintOp::Lt => seq!['<'],
        ConstraintOp::Ge => seq!['>', '='],
        ConstraintOp::Le => seq!['<', '='],
        ConstraintOp::Ne => seq!['!', '='],
        ConstraintOp::Other => Seq::empty(),
    }
}

/// Whether a constraint is taken: it is usable and its operator is pushed
/// down.
pub open spec fn is_taken(c: Constraint) -> bool {
    c.usable && c.op != ConstraintOp::Other
}

/// The taken constraints, in the order offered.
pub open spec fn taken(cs: Seq<Constraint>) -> Seq<Predicate>
    decreases cs.len(),
{
    if cs.len() == 0 {
        Seq::empty()
    } else if is_taken(cs.last()) {
        taken(cs.drop_last()).push(Predicate { column: cs.last().column, op: cs.last().op })
    } else {
        taken(cs.drop_last())
    }
}

/// One item of the token.
pub open spec fn item_text(p: Predicate) -> Seq<char> {
    nat_digits(p.column as nat) + op_text(p.op)
}

/// The token for some predicates: their items joined by commas.
pub open spec fn encode(ps: Seq<Predicate>) -> Seq<char>
    decreases ps.len(),
{
    if ps.len() == 0 {
        Seq::empty()
    } else if ps.len() == 1 {
        item_text(ps[0])
    } else {
        encode(ps.drop_last()) + seq![','] + item_text(ps.last())
    }
}

fn push_op(out: &mut String, op: ConstraintOp)
    ensures
        final(out)@ == old(out)@ + op_text(op),
{
    match op {
        ConstraintOp::Eq => push_char(out, '='),
        ConstraintOp::Gt => push_char(out, '>'),
        ConstraintOp::Lt => push_char(out, '<'),
        ConstraintOp::Ge => {
            push_char(out, '>');
            push_char(out, '=');
        },
        ConstraintOp::Le => {
            push_char(out, '<');
            push_char(out, '=');
        },
        ConstraintOp::Ne => {
            push_char(out, '!');
            push_char(out, '=');
        },
        ConstraintOp::Other => {},
    }
    assert(final(out)@ == old(out)@ + op_text(op));
}

/// Takes the usable constraints whose operator can be pushed down, gives
/// each the next 1-based argument slot, and writes them into the token.
pub fn best_index(constraints: &Vec<Constraint>) -> (r: IndexPlan)
    ensures
        r.idx_str@ == encode(taken(constraints@)),
        r.idx_num == taken(constraints@).len(),
        r.argv_index.len() == constraints.len(),
        forall|i: int|
            0 <= i < constraints.len() ==> #[trigger] r.argv_index[i] == if is_taken(
                constraints[i],
            ) {
                Some((taken(constraints@.take(i)).len() + 1) as usize)
            } else {
                None::<usize>
            },
{
    let mut idx_str = String::new();
    let mut used: usize = 0;
    let mut argv_index: Vec<Option<usize>> = Vec::new();
    let mut i: usize = 0;
    assert(constraints@.take(0) == Seq::<Constraint>::empty());
    while i < constraints.len()
        invariant
            i <= constraints.len(),
            used == taken(constraints@.take(i as int)).len(),
            used <= i,
            idx_str@ == encode(taken(constraints@.take(i as int))),
            argv_index.len() == i,
            forall|k: int|
                0 <= k < i ==> #[trigger] argv_index[k] == if is_taken(constraints[k]) {
                    Some((taken(constraints@.take(k)).len() + 1) as usize)
                } else {
                    None::<usize>
                },
        decreases constraints.len() - i,
    {
        let c = constraints[i];
        assert(constraints@.take(i + 1).drop_last() == constraints@.take(i as int));
        if c.usable && c.op != ConstraintOp::Other {
            if used > 0 {
                push_char(&mut idx_str, ',');
            }
            let digits = u64_to_text(c.column as u64);
            idx_str.append(digits.as_str());
            push_op(&mut idx_str, c.op);
            argv_index.push(Some(used + 1));
            proof {
                let prev = taken(constraints@.take(i as int));
                let next = taken(constraints@.take(i + 1));
                assert(next.drop_last() == prev);
                if prev.len() == 0 {
                    assert(next.len() == 1);
                }
            }
            used = used + 1;
        } else {
            argv_index.push(None);
        }
        i = i + 1;
    }
    assert(constraints@.take(i as int) == constraints@);
    IndexPlan { idx_str, idx_num: used, argv_index }
}

/// The pieces of `s` between commas, in order.
pub open spec fn split_commas(s: Seq<char>) -> Seq<Seq<char>>
    decreases s.len(),
{
    let k = index_of(s, ',', ',') as int;
    if k >= s.len() {
        seq![s]
    } else {
        seq![s.take(k)] + split_commas(s.skip(k + 1))
    }
}

/// How many decimal digits `s` starts with.
pub open spec fn digit_run(s: Seq<char>) -> nat
    decreases s.len(),
{
    if s.len() > 0 && is_digit(s[0]) {
        1 + digit_run(s.drop_first())
    } else {
        0
    }
}

/// The operator written by `t`.
pub open spec fn op_of_text(t: Seq<char>) -> Option<ConstraintOp> {
    if t == seq!['='] {
        Some(ConstraintOp::Eq)
    } else if t == seq!['>'] {
        Some(ConstraintOp::Gt)
    } else if t == seq!['<'] {
        Some(ConstraintOp::Lt)
    } else if t == seq!['>', '='] {
        Some(ConstraintOp::Ge)
    } else if t == seq!['<', '='] {
        Some(ConstraintOp::Le)
    } else if t == seq!['!', '='] {
        Some(ConstraintOp::Ne)
    } else {
        None
    }
}

/// One item of a token read back: a column number that fits in `usize`,
/// then an operator, nothing else.
pub open spec fn parse_item(p: Seq<char>) -> Option<Predicate> {
    let d = digit_run(p) as int;
    let v = digits_value(p.take(d));
    if d == 0 || v > usize::MAX {
        None
    } else {
        match op_of_text(p.skip(d)) {
            Some(op) => Some(Predicate { column: v as usize, op }),
            None => None,
        }
    }
}

/// A token read back: for each comma-separated item, in the order of the
/// argument slots, its predicate, or `None` where it does not read as one.
pub open spec fn decoded(s: Seq<char>) -> Seq<Option<Predicate>> {
    split_commas(s).map_values(|p: Seq<char>| parse_item(p))
}

fn digit_run_of(v: &Vec<char>) -> (r: usize)
    ensures
        r == digit_run(v@),
        r <= v.len(),
        all_digits(v@.take(r as int)),
{
    let mut i: usize = 0;
    assert(v@.skip(0) == v@);
    while i < v.len() && 48 <= v[i] as u32 && v[i] as u32 <= 57
        invariant
            i <= v.len(),
            digit_run(v@) == i + digit_run(v@.skip(i as int)),
            all_digits(v@.take(i as int)),
        decreases v.len() - i,
    {
        assert(v@.skip(i as int).drop_first() == v@.skip(i + 1));
        assert(v@.take(i + 1) == v@.take(i as int).push(v@[i as int]));
        i = i + 1;
    }
    i
}

fn op_from_chars(t: &Vec<char>) -> (r: Option<ConstraintOp>)
    ensures
        r == op_of_text(t@),
{
    let eq = vec!['='];
    let gt = vec!['>'];
    let lt = vec!['<'];
    let ge = vec!['>', '='];
    let le = vec!['<', '='];
    let ne = vec!['!', '='];
    assert(eq@ == seq!['=']);
    assert(gt@ == seq!['>']);
    assert(lt@ == seq!['<']);
    assert(ge@ == seq!['>', '=']);
    assert(le@ == seq!['<', '=']);
    assert(ne@ == seq!['!', '=']);
    if chars_eq(t, &eq) {
        Some(ConstraintOp::Eq)
    } else if chars_eq(t, &gt) {
        Some(ConstraintOp::Gt)
    } else if chars_eq(t, &lt) {
        Some(ConstraintOp::Lt)
    } else if chars_eq(t, &ge) {
        Some(ConstraintOp::Ge)
    } else if chars_eq(t, &le) {
        Some(ConstraintOp::Le)
    } else if chars_eq(t, &ne) {
        Some(ConstraintOp::Ne)
    } else {
        None
    }
}

fn parse_item_chars(p: &Vec<char>) -> (r: Option<Predicate>)
    ensures
        r == parse_item(p@),
{
    let d = digit_run_of(p);
    if d == 0 {
        return None;
    }
    let digits = slice_vec(p, 0, d);
    assert(digits@ == p@.take(d as int));
    assert(digits@.skip(0) == digits@);
    let col = match digits_up_to(&digits, 0, usize::MAX as u64) {
        Some(c) => c as usize,
        None => {
            return None;
        },
    };
    let rest = slice_vec(p, d, p.len());
    assert(rest@ == p@.skip(d as int));
    match op_from_chars(&rest) {
        Some(op) => Some(Predicate { column: col, op }),
        None => None,
    }
}

/// Reads an index token back into its predicates, one entry per argument
/// slot.
pub fn decode_index(token: &str) -> (r: Vec<Option<Predicate>>)
    ensures
        r@ == decoded(token@),
{
    let mut rest = chars_of(token);
    let mut out: Vec<Option<Predicate>> = Vec::new();
    loop
        invariant
            out@ + decoded(rest@) == decoded(token@),
        decreases rest.len(),
    {
        let k = find_either(&rest, ',', ',');
        let part = slice_vec(&rest, 0, k);
        let item = parse_item_chars(&part);
        if k == rest.len() {
            assert(part@ == rest@);
            assert(decoded(rest@) == seq![item]);
            out.push(item);
            return out;
        }
        let next = slice_vec(&rest, k + 1, rest.len());
        assert(next@ == rest@.skip(k + 1));
        assert(split_commas(rest@) == seq![part@] + split_commas(next@));
        assert(decoded(rest@) == seq![item] + decoded(next@));
        out.push(item);
        assert(out@ + decoded(next@) == decoded(token@));
        rest = next;
    }
}

proof fn lemma_index_of_concat(a: Seq<char>, b: Seq<char>, c: char)
    ensures
        index_of(a + b, c, c) == if index_of(a, c, c) < a.len() {
            index_of(a, c, c)
        } else {
            a.len() + index_of(b, c, c)
        },
    decreases a.len(),
{
    if a.len() == 0 {
        assert(a + b == b);
    } else {
        assert((a + b).drop_first() == a.drop_first() + b);
        lemma_index_of_concat(a.drop_first(), b, c);
    }
}

proof fn lemma_index_of_absent(s: Seq<char>, c: char)
    requires
        forall|i: int| 0 <= i < s.len() ==> s[i] != c,
    ensures
        index_of(s, c, c) == s.len(),
    decreases s.len(),
{
    if s.len() > 0 {
        lemma_index_of_absent(s.drop_first(), c);
    }
}

proof fn lemma_index_of_bound(s: Seq<char>, c: char)
    ensures
        index_of(s, c, c) <= s.len(),
        index_of(s, c, c) < s.len() ==> s[index_of(s, c, c) as int] == c,
    decreases s.len(),
{
    if s.len() > 0 {
        lemma_index_of_bound(s.drop_first(), c);
    }
}

proof fn lemma_split_concat(x: Seq<char>, y: Seq<char>)
    ensures
        split_commas(x + seq![','] + y) == split_commas(x) + split_commas(y),
    decreases x.len(),
{
    let s = x + seq![','] + y;
    lemma_index_of_concat(x, seq![','] + y, ',');
    assert(s == x + (seq![','] + y));
    lemma_index_of_bound(x, ',');
    let k = index_of(x, ',', ',') as int;
    if k >= x.len() {
        assert(index_of(seq![','] + y, ',', ',') == 0);
        assert(s.take(k) == x);
        assert(s.skip(k + 1) == y);
    } else {
        assert(s.take(k) == x.take(k));
        assert(s.skip(k + 1) == x.skip(k + 1) + seq![','] + y);
        lemma_split_concat(x.skip(k + 1), y);
        assert(split_commas(x) == seq![x.take(k)] + split_commas(x.skip(k + 1)));
    }
}

proof fn lemma_item_no_comma(p: Predicate)
    ensures
        index_of(item_text(p), ',', ',') == item_text(p).len(),
{
    let t = item_text(p);
    lemma_nat_digits(p.column as nat);
    let d = nat_digits(p.column as nat);
    assert forall|i: int| 0 <= i < t.len() implies t[i] != ',' by {
        if i < d.len() {
            assert(is_digit(d[i]));
        }
    }
    lemma_index_of_absent(t, ',');
}

proof fn lemma_split_encode(ps: Seq<Predicate>)
    requires
        ps.len() > 0,
    ensures
        split_commas(encode(ps)) == ps.map_values(|p: Predicate| item_text(p)),
    decreases ps.len(),
{
    if ps.len() == 1 {
        lemma_item_no_comma(ps[0]);
        assert(split_commas(item_text(ps[0])) == seq![item_text(ps[0])]);
    } else {
        lemma_split_encode(ps.drop_last());
        lemma_split_concat(encode(ps.drop_last()), item_text(ps.last()));
        lemma_item_no_comma(ps.last());
        assert(split_commas(item_text(ps.last())) == seq![item_text(ps.last())]);
        assert(ps.map_values(|p: Predicate| item_text(p)) == ps.drop_last().map_values(
            |p: Predicate| item_text(p),
        ).push(item_text(ps.last())));
    }
}

proof fn lemma_digit_run_concat(a: Seq<char>, b: Seq<char>)
    requires
        all_digits(a),
        b.len() == 0 || !is_digit(b[0]),
    ensures
        digit_run(a + b) == a.len(),
    decreases a.len(),
{
    if a.len() == 0 {
        assert(a + b == b);
    } else {
        assert(is_digit(a[0]));
        assert((a + b).drop_first() == a.drop_first() + b);
        lemma_digit_run_concat(a.drop_first(), b);
    }
}

proof fn lemma_parse_item(p: Predicate)
    requires
        p.op != ConstraintOp::Other,
    ensures
        parse_item(item_text(p)) == Some(p),
{
    let d = nat_digits(p.column as nat);
    let t = item_text(p);
    lemma_nat_digits(p.column as nat);
    let o = op_text(p.op);
    assert(!is_digit(o[0]));
    lemma_digit_run_concat(d, o);
    assert(op_of_text(o) == Some(p.op));
    assert(t.take(d.len() as int) == d);
    assert(t.skip(d.len() as int) == op_text(p.op));
}

/// Only taken operators reach the token.
pub open spec fn all_pushed(ps: Seq<Predicate>) -> bool {
    forall|i: int| 0 <= i < ps.len() ==> (#[trigger] ps[i]).op != ConstraintOp::Other
}

proof fn lemma_taken_pushed(cs: Seq<Constraint>)
    ensures
        all_pushed(taken(cs)),
    decreases cs.len(),
{
    if cs.len() > 0 {
        lemma_taken_pushed(cs.drop_last());
    }
}

/// Reading back the token of some predicates gives each of them, in its
/// slot; the token of no predicates reads as one empty item.
pub proof fn lemma_token_round_trip(ps: Seq<Predicate>)
    requires
        all_pushed(ps),
    ensures
        ps.len() > 0 ==> decoded(encode(ps)) == ps.map_values(|p: Predicate| Some(p)),
        ps.len() == 0 ==> decoded(encode(ps)) == seq![None::<Predicate>],
{
    if ps.len() > 0 {
        lemma_split_encode(ps);
        assert forall|i: int| 0 <= i < ps.len() implies #[trigger] decoded(encode(ps))[i] == Some(
            ps[i],
        ) by {
            lemma_parse_item(ps[i]);
        }
        assert(decoded(encode(ps)) == ps.map_values(|p: Predicate| Some(p)));
    } else {
        assert(index_of(Seq::<char>::empty(), ',', ',') == 0);
        assert(split_commas(encode(ps)) == seq![Seq::<char>::empty()]);
        assert(digit_run(Seq::<char>::empty()) == 0);
        assert(decoded(encode(ps)) == seq![None::<Predicate>]);
    }
}

/// The plan of any offered constraints reads back as the constraints that
/// were taken, each in the slot the plan gave it.
pub proof fn lemma_plan_round_trip(cs: Seq<Constraint>)
    ensures
        taken(cs).len() > 0 ==> decoded(encode(taken(cs))) == taken(cs).map_values(
            |p: Predicate| Some(p),
        ),
        taken(cs).len() == 0 ==> decoded(encode(taken(cs))) == seq![None::<Predicate>],
{
    lemma_taken_pushed(cs);
    lemma_token_round_trip(taken(cs));
}

} // verus!
