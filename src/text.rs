//! Character-level helpers over `Seq<char>`: whitespace, trimming, ASCII case.
use vstd::prelude::*;

verus! {

/// The Unicode `White_Space` property, as `char::is_whitespace` documents it.
pub open spec fn is_ws(c: char) -> bool {
    let u = c as u32;
    (0x09 <= u && u <= 0x0d) || u == 0x20 || u == 0x85 || u == 0xa0 || u == 0x1680 || (0x2000
        <= u && u <= 0x200a) || u == 0x2028 || u == 0x2029 || u == 0x202f || u == 0x205f || u
        == 0x3000
}

/// `s` without its leading whitespace.
pub open spec fn trim_start(s: Seq<char>) -> Seq<char>
    decreases s.len(),
{
    if s.len() > 0 && is_ws(s[0]) {
        trim_start(s.drop_first())
    } else {
        s
    }
}

/// `s` without its trailing whitespace.
pub open spec fn trim_end(s: Seq<char>) -> Seq<char>
    decreases s.len(),
{
    if s.len() > 0 && is_ws(s.last()) {
        trim_end(s.drop_last())
    } else {
        s
    }
}

/// `s` without leading and trailing whitespace, as `str::trim` gives it.
pub open spec fn trim(s: Seq<char>) -> Seq<char> {
    trim_end(trim_start(s))
}

pub fn is_whitespace(c: char) -> (r: bool)
    ensures
        r == is_ws(c),
{
    let u = c as u32;
    (0x09 <= u && u <= 0x0d) || u == 0x20 || u == 0x85 || u == 0xa0 || u == 0x1680 || (0x2000
        <= u && u <= 0x200a) || u == 0x2028 || u == 0x2029 || u == 0x202f || u == 0x205f || u
        == 0x3000
}

/// The characters of `s`, in order.
pub fn chars_of(s: &str) -> (r: Vec<char>)
    ensures
        r@ == s@,
{
    let mut out: Vec<char> = Vec::new();
    for c in it: s.chars()
        invariant
            out@ == it.seq().take(it.index() as int),
    {
        out.push(c);
    }
    out
}

/// Relies on `String::push`: appends one char at the end.
#[verifier::external_body]
pub(crate) fn push_char(s: &mut String, c: char)
    ensures
        final(s)@ == old(s)@.push(c),
{
    s.push(c)
}

/// A `String` holding the chars of `v[lo..hi]`.
pub fn string_of(v: &Vec<char>, lo: usize, hi: usize) -> (r: String)
    requires
        lo <= hi <= v.len(),
    ensures
        r@ == v@.subrange(lo as int, hi as int),
{
    let mut out = String::new();
    let mut i = lo;
    while i < hi
        invariant
            lo <= i <= hi <= v.len(),
            out@ == v@.subrange(lo as int, i as int),
        decreases hi - i,
    {
        push_char(&mut out, v[i]);
        assert(v@.subrange(lo as int, i + 1) == v@.subrange(lo as int, i as int).push(v@[i as int]));
        i = i + 1;
    }
    out
}

/// The bounds `(i, j)` such that `v[i..j]` is `v` trimmed.
pub fn trim_bounds(v: &Vec<char>) -> (r: (usize, usize))
    ensures
        r.0 <= r.1 <= v.len(),
        v@.subrange(r.0 as int, r.1 as int) == trim(v@),
{
    let n = v.len();
    let mut i: usize = 0;
    assert(v@.subrange(0, n as int) == v@);
    while i < n && is_whitespace(v[i])
        invariant
            i <= n == v.len(),
            trim_start(v@) == trim_start(v@.subrange(i as int, n as int)),
        decreases n - i,
    {
        assert(v@.subrange(i as int, n as int).drop_first() == v@.subrange(i + 1, n as int));
        i = i + 1;
    }
    assert(trim_start(v@) == v@.subrange(i as int, n as int));
    let mut j: usize = n;
    while j > i && is_whitespace(v[j - 1])
        invariant
            i <= j <= n == v.len(),
            trim(v@) == trim_end(v@.subrange(i as int, j as int)),
        decreases j,
    {
        assert(v@.subrange(i as int, j as int).drop_last() == v@.subrange(i as int, j - 1));
        j = j - 1;
    }
    (i, j)
}

/// Whether `a` and `b` hold the same chars.
pub fn chars_eq(a: &Vec<char>, b: &Vec<char>) -> (r: bool)
    ensures
        r == (a@ == b@),
{
    if a.len() != b.len() {
        return false;
    }
    let mut i: usize = 0;
    while i < a.len()
        invariant
            i <= a.len() == b.len(),
            forall|k: int| 0 <= k < i ==> a@[k] == b@[k],
        decreases a.len() - i,
    {
        if a[i] != b[i] {
            return false;
        }
        i = i + 1;
    }
    assert(a@ == b@);
    true
}

/// Whether `s` is empty once trimmed.
pub fn is_blank(s: &str) -> (r: bool)
    ensures
        r == (trim(s@).len() == 0),
{
    let v = chars_of(s);
    let (lo, hi) = trim_bounds(&v);
    lo == hi
}

} // verus!
