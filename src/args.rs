//! Table-definition arguments: `KEY=value` pairs and positional values.
use vstd::prelude::*;
use crate::numeric::{find_either, index_of, slice_vec};
use crate::storage::{
    format_of_upper, get_format, get_storage, storage_of_upper, upper_of, uppercase, OptionError,
    StorageOpts, VTabDataFormats,
};
use vstd::string::StringExecFns;
use crate::text::{chars_of, string_of, trim, trim_bounds};

verus! {

pub open spec fn is_quote(c: char) -> bool {
    c == '\'' || c == '"'
}

pub open spec fn unquote_start(s: Seq<char>) -> Seq<char>
    decreases s.len(),
{
    if s.len() > 0 && is_quote(s[0]) {
        unquote_start(s.drop_first())
    } else {
        s
    }
}

pub open spec fn unquote_end(s: Seq<char>) -> Seq<char>
    decreases s.len(),
{
    if s.len() > 0 && is_quote(s.last()) {
        unquote_end(s.drop_last())
    } else {
        s
    }
}

/// `s` without the single and double quotes at either end.
pub open spec fn unquote(s: Seq<char>) -> Seq<char> {
    unquote_end(unquote_start(s))
}

/// The `(KEY, value)` an argument with an `=` gives: the upper-cased,
/// trimmed text before the first `=`, and the trimmed, unquoted text after.
pub open spec fn named_pair(a: Seq<char>) -> Option<(Seq<char>, Seq<char>)> {
    let k = index_of(a, '=', '=') as int;
    if k < a.len() {
        Some((upper_of(trim(a.take(k))), unquote(trim(a.skip(k + 1)))))
    } else {
        None
    }
}

/// The value an argument without `=` gives: trimmed and unquoted, when
/// something is left.
pub open spec fn positional_value(a: Seq<char>) -> Option<Seq<char>> {
    if index_of(a, '=', '=') < a.len() {
        None
    } else if unquote(trim(a)).len() > 0 {
        Some(unquote(trim(a)))
    } else {
        None
    }
}

/// The pairs of the named arguments, in order.
pub open spec fn named_of(args: Seq<Seq<char>>) -> Seq<(Seq<char>, Seq<char>)>
    decreases args.len(),
{
    if args.len() == 0 {
        Seq::empty()
    } else {
        match named_pair(args.last()) {
            Some(p) => named_of(args.drop_last()).push(p),
            None => named_of(args.drop_last()),
        }
    }
}

/// The positional values, in order.
pub open spec fn positional_of(args: Seq<Seq<char>>) -> Seq<Seq<char>>
    decreases args.len(),
{
    if args.len() == 0 {
        Seq::empty()
    } else {
        match positional_value(args.last()) {
            Some(v) => positional_of(args.drop_last()).push(v),
            None => positional_of(args.drop_last()),
        }
    }
}

/// The value of the last pair with key `key`.
pub open spec fn lookup(pairs: Seq<(Seq<char>, Seq<char>)>, key: Seq<char>) -> Option<Seq<char>>
    decreases pairs.len(),
{
    if pairs.len() == 0 {
        None
    } else if pairs.last().0 == key {
        Some(pairs.last().1)
    } else {
        lookup(pairs.drop_last(), key)
    }
}

/// Named arguments in the order given; a later key overrides an earlier one.
#[derive(Debug, Clone)]
pub struct NamedArgs {
    pub entries: Vec<(String, String)>,
}

pub open spec fn pairs_view(e: Seq<(String, String)>) -> Seq<(Seq<char>, Seq<char>)> {
    e.map_values(|p: (String, String)| (p.0@, p.1@))
}

impl NamedArgs {
    /// The value given last for `key`.
    pub fn get(&self, key: &str) -> (r: Option<&String>)
        ensures
            r is Some <==> lookup(pairs_view(self.entries@), key@) is Some,
            r is Some ==> r->0@ == lookup(pairs_view(self.entries@), key@)->0,
    {
        let ghost pv = pairs_view(self.entries@);
        let k = chars_of(key);
        let mut i = self.entries.len();
        assert(pv.take(i as int) == pv);
        while i > 0
            invariant
                i <= self.entries.len(),
                pv == pairs_view(self.entries@),
                k@ == key@,
                lookup(pv, key@) == lookup(pv.take(i as int), key@),
            decreases i,
        {
            assert(pv.take(i as int).drop_last() == pv.take(i - 1));
            let name = chars_of(self.entries[i - 1].0.as_str());
            if crate::text::chars_eq(&name, &k) {
                return Some(&self.entries[i - 1].1);
            }
            i = i - 1;
        }
        None
    }

    pub fn is_empty(&self) -> (r: bool)
        ensures
            r == (self.entries.len() == 0),
    {
        self.entries.len() == 0
    }
}

/// The arguments of a table definition, read.
#[derive(Debug, Clone)]
pub struct ParsedArgs {
    pub named: NamedArgs,
    pub positional: Vec<String>,
}

fn unquote_bounds(v: &Vec<char>) -> (r: (usize, usize))
    ensures
        r.0 <= r.1 <= v.len(),
        v@.subrange(r.0 as int, r.1 as int) == unquote(v@),
{
    let n = v.len();
    let mut i: usize = 0;
    assert(v@.subrange(0, n as int) == v@);
    while i < n && (v[i] == '\'' || v[i] == '"')
        invariant
            i <= n == v.len(),
            unquote_start(v@) == unquote_start(v@.subrange(i as int, n as int)),
        decreases n - i,
    {
        assert(v@.subrange(i as int, n as int).drop_first() == v@.subrange(i + 1, n as int));
        i = i + 1;
    }
    assert(unquote_start(v@) == v@.subrange(i as int, n as int));
    let mut j: usize = n;
    while j > i && (v[j - 1] == '\'' || v[j - 1] == '"')
        invariant
            i <= j <= n == v.len(),
            unquote(v@) == unquote_end(v@.subrange(i as int, j as int)),
        decreases j,
    {
        assert(v@.subrange(i as int, j as int).drop_last() == v@.subrange(i as int, j - 1));
        j = j - 1;
    }
    (i, j)
}

/// `v` trimmed, then unquoted.
fn clean(v: &Vec<char>) -> (r: Vec<char>)
    ensures
        r@ == unquote(trim(v@)),
{
    let (a, b) = trim_bounds(v);
    let t = slice_vec(v, a, b);
    let (c, d) = unquote_bounds(&t);
    slice_vec(&t, c, d)
}

/// Reads table-definition arguments: one with an `=` is a named pair whose
/// key is upper-cased; one without is a positional value, dropped when it
/// is empty once trimmed and unquoted.
pub fn parse_args(args: Vec<String>) -> (r: ParsedArgs)
    ensures
        pairs_view(r.named.entries@) == named_of(args@.map_values(|s: String| s@)),
        r.positional@.map_values(|s: String| s@) == positional_of(
            args@.map_values(|s: String| s@),
        ),
{
    let ghost av = args@.map_values(|s: String| s@);
    let mut named: Vec<(String, String)> = Vec::new();
    let mut positional: Vec<String> = Vec::new();
    let mut i: usize = 0;
    assert(av.take(0) == Seq::<Seq<char>>::empty());
    while i < args.len()
        invariant
            i <= args.len(),
            av == args@.map_values(|s: String| s@),
            pairs_view(named@) == named_of(av.take(i as int)),
            positional@.map_values(|s: String| s@) == positional_of(av.take(i as int)),
        decreases args.len() - i,
    {
        assert(av.take(i + 1).drop_last() == av.take(i as int));
        assert(av.take(i + 1).last() == args[i as int]@);
        let v = chars_of(args[i].as_str());
        let eq = find_either(&v, '=', '=');
        if eq < v.len() {
            let key_part = slice_vec(&v, 0, eq);
            let (a, b) = trim_bounds(&key_part);
            let key_trimmed = string_of(&key_part, a, b);
            let key = uppercase(key_trimmed.as_str());
            let value_part = slice_vec(&v, eq + 1, v.len());
            assert(key_part@ == v@.take(eq as int));
            assert(value_part@ == v@.skip(eq + 1));
            let value_chars = clean(&value_part);
            let value = string_of(&value_chars, 0, value_chars.len());
            assert(value_chars@.subrange(0, value_chars.len() as int) == value_chars@);
            let ghost before = pairs_view(named@);
            named.push((key, value));
            assert(pairs_view(named@) == before.push((key@, value@)));
        } else {
            let val_chars = clean(&v);
            if val_chars.len() > 0 {
                let val = string_of(&val_chars, 0, val_chars.len());
                assert(val_chars@.subrange(0, val_chars.len() as int) == val_chars@);
                let ghost before = positional@.map_values(|s: String| s@);
                positional.push(val);
                assert(positional@.map_values(|s: String| s@) == before.push(val@));
            }
        }
        i = i + 1;
    }
    assert(av.take(i as int) == av);
    ParsedArgs { named: NamedArgs { entries: named }, positional }
}

/// Why the arguments of a table definition cannot open a table.
#[derive(Debug, Clone)]
pub enum InitError {
    /// Fewer than two arguments were given.
    MissingArgs,
    NoUrl,
    NoFormat,
    /// The format or storage option names no known value.
    BadOption(OptionError),
}

impl InitError {
    pub open spec fn message(self) -> Seq<char> {
        match self {
            InitError::MissingArgs => "URL and FORMAT args must be provided"@,
            InitError::NoUrl => "No URL provided"@,
            InitError::NoFormat => "No data format specified"@,
            InitError::BadOption(e) => e.message(),
        }
    }

    pub fn to_string(&self) -> (r: String)
        ensures
            r@ == self.message(),
    {
        match self {
            InitError::MissingArgs => String::from_str("URL and FORMAT args must be provided"),
            InitError::NoUrl => String::from_str("No URL provided"),
            InitError::NoFormat => String::from_str("No data format specified"),
            InitError::BadOption(e) => e.to_string(),
        }
    }
}

/// What a table definition asks for.
#[derive(Debug, Clone)]
pub struct TableOptions {
    pub url: String,
    pub format: VTabDataFormats,
    pub storage: StorageOpts,
}

/// An option given by name, else by position.
pub open spec fn pick(
    pairs: Seq<(Seq<char>, Seq<char>)>,
    positional: Seq<Seq<char>>,
    key: Seq<char>,
    i: int,
) -> Option<Seq<char>> {
    if lookup(pairs, key) is Some {
        lookup(pairs, key)
    } else if 0 <= i < positional.len() {
        Some(positional[i])
    } else {
        None
    }
}

fn pick_exec(parsed: &ParsedArgs, key: &str, i: usize) -> (r: Option<String>)
    ensures
        r is Some <==> pick(
            pairs_view(parsed.named.entries@),
            parsed.positional@.map_values(|s: String| s@),
            key@,
            i as int,
        ) is Some,
        r is Some ==> r->0@ == pick(
            pairs_view(parsed.named.entries@),
            parsed.positional@.map_values(|s: String| s@),
            key@,
            i as int,
        )->0,
{
    match parsed.named.get(key) {
        Some(v) => Some(v.clone()),
        None => if i < parsed.positional.len() {
            Some(parsed.positional[i].clone())
        } else {
            None
        },
    }
}

/// Reads the options of a table definition: the URL (`URL`, else the
/// first positional value), the format (`FORMAT`, else the second), and the
/// storage (`STORAGE`, else the third, else `DISK`).
pub fn table_options(args: Vec<String>) -> (r: Result<TableOptions, InitError>)
    ensures
        ({
            let av = args@.map_values(|s: String| s@);
            let pairs = named_of(av);
            let pos = positional_of(av);
            let url = pick(pairs, pos, "URL"@, 0);
            let fmt = pick(pairs, pos, "FORMAT"@, 1);
            let sto = pick(pairs, pos, "STORAGE"@, 2);
            if av.len() < 2 {
                r matches Err(InitError::MissingArgs)
            } else if url is None {
                r matches Err(InitError::NoUrl)
            } else if fmt is None {
                r matches Err(InitError::NoFormat)
            } else if format_of_upper(upper_of(fmt->0)) is None {
                r matches Err(InitError::BadOption(OptionError::UnknownFormat(_)))
            } else if sto is Some && storage_of_upper(upper_of(trim(sto->0))) is None {
                r matches Err(InitError::BadOption(OptionError::UnknownStorage(_)))
            } else {
                &&& r is Ok
                &&& r->Ok_0.url@ == url->0
                &&& r->Ok_0.format == format_of_upper(upper_of(fmt->0))->0
                &&& r->Ok_0.storage == if sto is Some {
                    storage_of_upper(upper_of(trim(sto->0)))->0
                } else {
                    StorageOpts::DISK
                }
            }
        }),
{
    if args.len() < 2 {
        return Err(InitError::MissingArgs);
    }
    let parsed = parse_args(args);
    let url = match pick_exec(&parsed, "URL", 0) {
        Some(u) => u,
        None => {
            return Err(InitError::NoUrl);
        },
    };
    let fmt = match pick_exec(&parsed, "FORMAT", 1) {
        Some(f) => f,
        None => {
            return Err(InitError::NoFormat);
        },
    };
    let format = match get_format(fmt.as_str()) {
        Ok(f) => f,
        Err(e) => {
            return Err(InitError::BadOption(e));
        },
    };
    let storage = match pick_exec(&parsed, "STORAGE", 2) {
        Some(s) => match get_storage(s.as_str()) {
            Ok(v) => v,
            Err(e) => {
                return Err(InitError::BadOption(e));
            },
        },
        None => StorageOpts::DISK,
    };
    Ok(TableOptions { url, format, storage })
}

} // verus!
