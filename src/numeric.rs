//! The text forms of numbers: signed 64-bit integers, the floating-point
//! literal syntax, and decimal rendering.
use vstd::prelude::*;

verus! {

pub open spec fn is_digit(c: char) -> bool {
    48 <= c as u32 && c as u32 <= 57
}

pub open spec fn digit_val(c: char) -> int {
    c as u32 - 48
}

pub open spec fn all_digits(s: Seq<char>) -> bool {
    forall|i: int| 0 <= i < s.len() ==> is_digit(#[trigger] s[i])
}

/// The value of a string of decimal digits, most significant first.
pub open spec fn digits_value(s: Seq<char>) -> nat
    decreases s.len(),
{
    if s.len() == 0 {
        0
    } else {
        (digits_value(s.drop_last()) * 10 + digit_val(s.last())) as nat
    }
}

/// The integer written by `s`: an optional `+` or `-`, then one or more
/// decimal digits, nothing else.
pub open spec fn int_text_value(s: Seq<char>) -> Option<int> {
    if s.len() > 0 && (s[0] == '+' || s[0] == '-') {
        let d = s.drop_first();
        if d.len() > 0 && all_digits(d) {
            Some(
                if s[0] == '-' {
                    -digits_value(d)
                } else {
                    digits_value(d) as int
                },
            )
        } else {
            None
        }
    } else if s.len() > 0 && all_digits(s) {
        Some(digits_value(s) as int)
    } else {
        None
    }
}

/// What `str::parse::<i64>` accepts and returns: the integer text, when its
/// value fits in 64 signed bits.
pub open spec fn i64_of(s: Seq<char>) -> Option<i64> {
    match int_text_value(s) {
        Some(v) => if i64::MIN <= v <= i64::MAX {
            Some(v as i64)
        } else {
            None
        },
        None => None,
    }
}

proof fn lemma_digits_value_prefix_monotone(s: Seq<char>, i: int, j: int)
    requires
        0 <= i <= j <= s.len(),
        all_digits(s),
    ensures
        digits_value(s.take(i)) <= digits_value(s.take(j)),
    decreases j - i,
{
    if i < j {
        lemma_digits_value_prefix_monotone(s, i, j - 1);
        assert(s.take(j).drop_last() == s.take(j - 1));
        assert(is_digit(s[j - 1]));
    }
}

/// Value of the digits `v[lo..hi]`, or `None` once it exceeds `limit`.
pub(crate) fn digits_up_to(v: &Vec<char>, lo: usize, limit: u64) -> (r: Option<u64>)
    requires
        lo <= v.len(),
        limit >= 9,
        all_digits(v@.skip(lo as int)),
    ensures
        r == (if digits_value(v@.skip(lo as int)) <= limit {
            Some(digits_value(v@.skip(lo as int)) as u64)
        } else {
            None
        }),
{
    let ghost d = v@.skip(lo as int);
    let mut acc: u64 = 0;
    let mut i: usize = lo;
    while i < v.len()
        invariant
            lo <= i <= v.len(),
            d == v@.skip(lo as int),
            all_digits(d),
            acc == digits_value(d.take(i - lo)),
            acc <= limit,
            limit >= 9,
        decreases v.len() - i,
    {
        assert(d.take(i - lo + 1).drop_last() == d.take(i - lo));
        assert(is_digit(d[i - lo]));
        assert(d[i - lo] == v@[i as int]);
        let c = v[i];
        assert(is_digit(c));
        let cu: u32 = c as u32;
        assert(48 <= cu <= 57);
        let dv: u64 = (cu - 48) as u64;
        if acc > (limit - dv) / 10 {
            proof {
                assert(acc * 10 + dv > limit) by (nonlinear_arith)
                    requires
                        acc > (limit - dv) / 10,
                        dv <= limit,
                ;
                lemma_digits_value_prefix_monotone(d, i - lo + 1, d.len() as int);
                assert(d.take(d.len() as int) == d);
            }
            return None;
        }
        proof {
            assert(acc * 10 + dv <= limit) by (nonlinear_arith)
                requires
                    acc <= (limit - dv) / 10,
                    dv <= limit,
            ;
        }
        acc = acc * 10 + dv;
        i = i + 1;
    }
    assert(d.take(i - lo) == d);
    Some(acc)
}

fn all_digits_from(v: &Vec<char>, lo: usize) -> (r: bool)
    requires
        lo <= v.len(),
    ensures
        r == all_digits(v@.skip(lo as int)),
{
    let mut i = lo;
    while i < v.len()
        invariant
            lo <= i <= v.len(),
            forall|k: int| lo <= k < i ==> is_digit(#[trigger] v@[k]),
        decreases v.len() - i,
    {
        let cu: u32 = v[i] as u32;
        if !(48 <= cu && cu <= 57) {
            assert(v@.skip(lo as int)[i - lo] == v@[i as int]);
            return false;
        }
        i = i + 1;
    }
    assert forall|k: int| 0 <= k < v@.skip(lo as int).len() implies is_digit(
        #[trigger] v@.skip(lo as int)[k],
    ) by {
        assert(v@.skip(lo as int)[k] == v@[lo + k]);
    }
    true
}

/// Reads `v` as `str::parse::<i64>` does.
pub fn parse_i64(v: &Vec<char>) -> (r: Option<i64>)
    ensures
        r == i64_of(v@),
{
    let n = v.len();
    if n == 0 {
        return None;
    }
    let neg = v[0] == '-';
    let signed = v[0] == '+' || v[0] == '-';
    let lo: usize = if signed {
        1
    } else {
        0
    };
    assert(v@.skip(1) == v@.drop_first());
    assert(v@.skip(0) == v@);
    if lo == n {
        return None;
    }
    if !all_digits_from(v, lo) {
        return None;
    }
    let limit: u64 = if neg {
        9223372036854775808
    } else {
        9223372036854775807
    };
    match digits_up_to(v, lo, limit) {
        None => None,
        Some(m) => {
            if neg {
                if m == 9223372036854775808 {
                    Some(i64::MIN)
                } else {
                    Some(-(m as i64))
                }
            } else {
                Some(m as i64)
            }
        },
    }
}

pub open spec fn is_ascii_upper(c: char) -> bool {
    65 <= c as u32 && c as u32 <= 90
}

/// `a` and `b` are the same char up to ASCII case.
pub open spec fn char_eq_ic(a: char, b: char) -> bool {
    a == b || (is_ascii_upper(a) && a as u32 + 32 == b as u32) || (is_ascii_upper(b) && b as u32
        + 32 == a as u32)
}

/// `str::eq_ignore_ascii_case`.
pub open spec fn eq_ic(s: Seq<char>, t: Seq<char>) -> bool {
    s.len() == t.len() && forall|i: int| 0 <= i < s.len() ==> char_eq_ic(#[trigger] s[i], t[i])
}

pub open spec fn is_sign(c: char) -> bool {
    c == '+' || c == '-'
}

/// `s` without a leading sign.
pub open spec fn unsigned_part(s: Seq<char>) -> Seq<char> {
    if s.len() > 0 && is_sign(s[0]) {
        s.drop_first()
    } else {
        s
    }
}

/// Index of the first `a` or `b` in `s`, or `s.len()` when there is none.
pub open spec fn index_of(s: Seq<char>, a: char, b: char) -> nat
    decreases s.len(),
{
    if s.len() == 0 {
        0
    } else if s[0] == a || s[0] == b {
        0
    } else {
        1 + index_of(s.drop_first(), a, b)
    }
}

/// `Digit+ | Digit+ '.' Digit* | Digit* '.' Digit+`
pub open spec fn mantissa_ok(m: Seq<char>) -> bool {
    let d = index_of(m, '.', '.') as int;
    if d == m.len() {
        m.len() > 0 && all_digits(m)
    } else {
        m.len() >= 2 && all_digits(m.take(d)) && all_digits(m.skip(d + 1))
    }
}

/// `Sign? Digit+`
pub open spec fn exponent_ok(x: Seq<char>) -> bool {
    let u = unsigned_part(x);
    u.len() > 0 && all_digits(u)
}

/// A mantissa, then optionally `e` or `E` and an exponent.
pub open spec fn number_ok(s: Seq<char>) -> bool {
    let k = index_of(s, 'e', 'E') as int;
    if k == s.len() {
        mantissa_ok(s)
    } else {
        mantissa_ok(s.take(k)) && exponent_ok(s.skip(k + 1))
    }
}

/// The grammar that `str::parse::<f64>` documents for the strings it
/// accepts: an optional sign, then `inf`, `infinity` or `nan` in any ASCII
/// case, or a decimal number with an optional exponent.
pub open spec fn is_float_text(s: Seq<char>) -> bool {
    let u = unsigned_part(s);
    eq_ic(u, seq!['i', 'n', 'f']) || eq_ic(u, seq!['i', 'n', 'f', 'i', 'n', 'i', 't', 'y'])
        || eq_ic(u, seq!['n', 'a', 'n']) || number_ok(u)
}

pub fn char_eq_ignore_case(a: char, b: char) -> (r: bool)
    ensures
        r == char_eq_ic(a, b),
{
    let x: u32 = a as u32;
    let y: u32 = b as u32;
    a == b || (65 <= x && x <= 90 && x + 32 == y) || (65 <= y && y <= 90 && y + 32 == x)
}

/// `s` equals `t` up to ASCII case.
pub fn eq_ignore_ascii_case(s: &Vec<char>, t: &Vec<char>) -> (r: bool)
    ensures
        r == eq_ic(s@, t@),
{
    if s.len() != t.len() {
        return false;
    }
    let mut i: usize = 0;
    while i < s.len()
        invariant
            i <= s.len() == t.len(),
            forall|k: int| 0 <= k < i ==> char_eq_ic(#[trigger] s@[k], t@[k]),
        decreases s.len() - i,
    {
        if !char_eq_ignore_case(s[i], t[i]) {
            return false;
        }
        i = i + 1;
    }
    true
}

/// The chars `v[lo..hi]` as a new vector.
pub fn slice_vec(v: &Vec<char>, lo: usize, hi: usize) -> (r: Vec<char>)
    requires
        lo <= hi <= v.len(),
    ensures
        r@ == v@.subrange(lo as int, hi as int),
{
    let mut out: Vec<char> = Vec::new();
    let mut i = lo;
    while i < hi
        invariant
            lo <= i <= hi <= v.len(),
            out@ == v@.subrange(lo as int, i as int),
        decreases hi - i,
    {
        out.push(v[i]);
        assert(v@.subrange(lo as int, i + 1) == v@.subrange(lo as int, i as int).push(v@[i as int]));
        i = i + 1;
    }
    out
}

pub fn find_either(v: &Vec<char>, a: char, b: char) -> (r: usize)
    ensures
        r == index_of(v@, a, b),
        r <= v.len(),
{
    let mut i: usize = 0;
    assert(v@.skip(0) == v@);
    while i < v.len() && v[i] != a && v[i] != b
        invariant
            i <= v.len(),
            index_of(v@, a, b) == i + index_of(v@.skip(i as int), a, b),
        decreases v.len() - i,
    {
        assert(v@.skip(i as int).drop_first() == v@.skip(i + 1));
        i = i + 1;
    }
    i
}

fn unsigned_start(v: &Vec<char>) -> (r: usize)
    ensures
        r <= v.len(),
        v@.skip(r as int) == unsigned_part(v@),
{
    assert(v@.skip(0) == v@);
    assert(v.len() > 0 ==> v@.skip(1) == v@.drop_first());
    if v.len() > 0 && (v[0] == '+' || v[0] == '-') {
        1
    } else {
        0
    }
}

fn is_mantissa(m: &Vec<char>) -> (r: bool)
    ensures
        r == mantissa_ok(m@),
{
    let d = find_either(m, '.', '.');
    assert(m@.skip(0) == m@);
    if d == m.len() {
        m.len() > 0 && all_digits_from(m, 0)
    } else {
        let head = slice_vec(m, 0, d);
        assert(head@.skip(0) == m@.take(d as int));
        m.len() >= 2 && all_digits_from(&head, 0) && all_digits_from(m, d + 1)
    }
}

fn is_number(u: &Vec<char>) -> (r: bool)
    ensures
        r == number_ok(u@),
{
    let k = find_either(u, 'e', 'E');
    if k == u.len() {
        is_mantissa(u)
    } else {
        let m = slice_vec(u, 0, k);
        assert(m@ == u@.take(k as int));
        let x = slice_vec(u, k + 1, u.len());
        assert(x@ == u@.skip(k + 1));
        if !is_mantissa(&m) {
            return false;
        }
        let s = unsigned_start(&x);
        s < x.len() && all_digits_from(&x, s)
    }
}

/// Whether `str::parse::<f64>` accepts `v`.
pub fn parses_as_float(v: &Vec<char>) -> (r: bool)
    ensures
        r == is_float_text(v@),
{
    let s = unsigned_start(v);
    let u = slice_vec(v, s, v.len());
    assert(u@ == unsigned_part(v@));
    let inf = vec!['i', 'n', 'f'];
    let infinity = vec!['i', 'n', 'f', 'i', 'n', 'i', 't', 'y'];
    let nan = vec!['n', 'a', 'n'];
    assert(inf@ == seq!['i', 'n', 'f']);
    assert(infinity@ == seq!['i', 'n', 'f', 'i', 'n', 'i', 't', 'y']);
    assert(nan@ == seq!['n', 'a', 'n']);
    eq_ignore_ascii_case(&u, &inf) || eq_ignore_ascii_case(&u, &infinity) || eq_ignore_ascii_case(
        &u,
        &nan,
    ) || is_number(&u)
}

pub open spec fn digit_char(d: nat) -> char {
    seq!['0', '1', '2', '3', '4', '5', '6', '7', '8', '9'][d as int]
}

/// The decimal digits of `n`, without leading zeros.
pub open spec fn nat_digits(n: nat) -> Seq<char>
    decreases n,
{
    if n < 10 {
        seq![digit_char(n)]
    } else {
        nat_digits(n / 10).push(digit_char(n % 10))
    }
}

/// The decimal form of `v`: a `-` for negative values, then its digits.
pub open spec fn int_digits(v: int) -> Seq<char> {
    if v < 0 {
        seq!['-'] + nat_digits((-v) as nat)
    } else {
        nat_digits(v as nat)
    }
}

proof fn lemma_digit_char(d: nat)
    requires
        d < 10,
    ensures
        is_digit(digit_char(d)),
        digit_val(digit_char(d)) == d,
{
    let t = seq!['0', '1', '2', '3', '4', '5', '6', '7', '8', '9'];
    assert(t[0] == '0' && t[1] == '1' && t[2] == '2' && t[3] == '3' && t[4] == '4');
    assert(t[5] == '5' && t[6] == '6' && t[7] == '7' && t[8] == '8' && t[9] == '9');
}

pub proof fn lemma_nat_digits(n: nat)
    ensures
        nat_digits(n).len() > 0,
        all_digits(nat_digits(n)),
        digits_value(nat_digits(n)) == n,
    decreases n,
{
    if n < 10 {
        lemma_digit_char(n);
        let s = seq![digit_char(n)];
        assert(s.drop_last() == Seq::<char>::empty());
        assert(digits_value(s) == digits_value(s.drop_last()) * 10 + digit_val(s.last()));
    } else {
        lemma_nat_digits(n / 10);
        lemma_digit_char(n % 10);
        let s = nat_digits(n);
        assert(s.drop_last() == nat_digits(n / 10));
        assert(s.last() == digit_char(n % 10));
        assert((n / 10) * 10 + n % 10 == n) by (nonlinear_arith);
        assert(digits_value(s) == digits_value(nat_digits(n / 10)) * 10 + digit_val(
            digit_char(n % 10),
        ));
        assert forall|i: int| 0 <= i < s.len() implies is_digit(#[trigger] s[i]) by {
            if i < s.len() - 1 {
                assert(s[i] == nat_digits(n / 10)[i]);
            }
        }
    }
}

/// Reading the decimal form of an integer gives the integer back.
pub proof fn lemma_int_digits_read_back(v: int)
    ensures
        int_text_value(int_digits(v)) == Some(v),
{
    if v < 0 {
        let d = nat_digits((-v) as nat);
        lemma_nat_digits((-v) as nat);
        assert((seq!['-'] + d).drop_first() == d);
    } else {
        let d = nat_digits(v as nat);
        lemma_nat_digits(v as nat);
        assert(is_digit(d[0]));
    }
}

pub proof fn lemma_nat_digits_nonempty(v: int)
    ensures
        int_digits(v).len() > 0,
{
    if v < 0 {
        lemma_nat_digits((-v) as nat);
    } else {
        lemma_nat_digits(v as nat);
    }
}

/// Every `i64` written in decimal reads back as itself.
pub proof fn lemma_i64_text_round_trip(v: i64)
    ensures
        i64_of(int_digits(v as int)) == Some(v),
{
    lemma_int_digits_read_back(v as int);
}

fn push_digits(out: &mut String, n: u64)
    ensures
        final(out)@ == old(out)@ + nat_digits(n as nat),
    decreases n,
{
    let table = ['0', '1', '2', '3', '4', '5', '6', '7', '8', '9'];
    assert(table@ == seq!['0', '1', '2', '3', '4', '5', '6', '7', '8', '9']);
    if n >= 10 {
        push_digits(out, n / 10);
    }
    let d = (n % 10) as usize;
    crate::text::push_char(out, table[d]);
    assert(old(out)@ + nat_digits(n as nat) == old(out)@ + nat_digits((n / 10) as nat) + seq![
        digit_char((n % 10) as nat),
    ] || n < 10);
}

/// The decimal form of `n`.
pub fn u64_to_text(n: u64) -> (r: String)
    ensures
        r@ == nat_digits(n as nat),
{
    let mut out = String::new();
    push_digits(&mut out, n);
    assert(out@ == Seq::<char>::empty() + nat_digits(n as nat));
    out
}

/// The decimal form of `v`, as `i64`'s `to_string` gives it.
pub fn i64_to_text(v: i64) -> (r: String)
    ensures
        r@ == int_digits(v as int),
{
    let mut out = String::new();
    if v < 0 {
        crate::text::push_char(&mut out, '-');
        let m: u64 = (-(v as i128)) as u64;
        push_digits(&mut out, m);
    } else {
        push_digits(&mut out, v as u64);
    }
    out
}

} // verus!
