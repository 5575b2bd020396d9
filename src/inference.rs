//! Column type inference: each non-blank sample is classified and the
//! column's type is raised to the least upper bound of what it has seen.
use vstd::prelude::*;
use vstd::string::StringExecFns;
use crate::numeric::{eq_ic, eq_ignore_ascii_case, i64_of, is_float_text, parse_i64, parses_as_float, slice_vec};
use crate::schema::DataType;
use crate::text::{chars_of, trim, trim_bounds};

verus! {

/// The inference lattice: `Null < Bool < Int < Float < String`.
#[derive(Debug, Clone, Copy, PartialEq, Eq, Structural)]
pub enum InferredType {
    Null,
    Bool,
    Int,
    Float,
    String,
}

/// Position of a type in the promotion order.
pub open spec fn rank(t: InferredType) -> nat {
    match t {
        InferredType::Null => 0,
        InferredType::Bool => 1,
        InferredType::Int => 2,
        InferredType::Float => 3,
        InferredType::String => 4,
    }
}

/// Least upper bound of two types in the promotion order.
pub open spec fn join(a: InferredType, b: InferredType) -> InferredType {
    if rank(a) >= rank(b) {
        a
    } else {
        b
    }
}

/// The class of a trimmed, non-blank sample: `true`/`false` in any ASCII
/// case, else a 64-bit integer, else a float, else text.
pub open spec fn classify(t: Seq<char>) -> InferredType {
    if eq_ic(t, "true"@) || eq_ic(t, "false"@) {
        InferredType::Bool
    } else if i64_of(t) is Some {
        InferredType::Int
    } else if is_float_text(t) {
        InferredType::Float
    } else {
        InferredType::String
    }
}

/// The type after observing `sample`: unchanged by a blank sample, else
/// joined with the sample's class.
pub open spec fn updated(cur: InferredType, sample: Seq<char>) -> InferredType {
    let t = trim(sample);
    if t.len() == 0 {
        cur
    } else {
        join(cur, classify(t))
    }
}

/// What `finalize` maps each inferred type to.
pub open spec fn data_type_of(t: InferredType) -> DataType {
    match t {
        InferredType::Null => DataType::Null,
        InferredType::Bool => DataType::Numeric,
        InferredType::Int => DataType::Int,
        InferredType::Float => DataType::Real,
        InferredType::String => DataType::Text,
    }
}

pub open spec fn base_name(t: InferredType) -> Seq<char> {
    match t {
        InferredType::Null => "null"@,
        InferredType::Bool => "bool"@,
        InferredType::Int => "int"@,
        InferredType::Float => "float"@,
        InferredType::String => "string"@,
    }
}

fn classify_chars(t: &Vec<char>) -> (r: InferredType)
    ensures
        r == classify(t@),
{
    let tru = chars_of("true");
    let fal = chars_of("false");
    if eq_ignore_ascii_case(t, &tru) || eq_ignore_ascii_case(t, &fal) {
        InferredType::Bool
    } else if parse_i64(t).is_some() {
        InferredType::Int
    } else if parses_as_float(t) {
        InferredType::Float
    } else {
        InferredType::String
    }
}

impl InferredType {
    /// Observes one sample of the column.
    pub fn update(&mut self, value: &str)
        ensures
            *final(self) == updated(*old(self), value@),
    {
        let v = chars_of(value);
        let (lo, hi) = trim_bounds(&v);
        if lo == hi {
            return ;
        }
        let t = slice_vec(&v, lo, hi);
        let new_type = classify_chars(&t);
        *self = Self::promote(self, &new_type);
    }

    fn promote(current: &InferredType, new: &InferredType) -> (r: InferredType)
        ensures
            r == join(*current, *new),
    {
        match (current, new) {
            (InferredType::String, _) | (_, InferredType::String) => InferredType::String,
            (InferredType::Float, _) | (_, InferredType::Float) => InferredType::Float,
            (InferredType::Int, _) | (_, InferredType::Int) => InferredType::Int,
            (InferredType::Bool, _) | (_, InferredType::Bool) => InferredType::Bool,
            (InferredType::Null, other) => *other,
        }
    }

    /// The type's name, as `nullable<name>` when the column has seen blanks
    /// and the type is not `null`.
    pub fn as_str(&self, nullable: bool) -> (r: String)
        ensures
            r@ == (if nullable && *self != InferredType::Null {
                "nullable<"@ + base_name(*self) + ">"@
            } else {
                base_name(*self)
            }),
    {
        let base = match self {
            InferredType::Null => "null",
            InferredType::Bool => "bool",
            InferredType::Int => "int",
            InferredType::Float => "float",
            InferredType::String => "string",
        };
        if nullable && *self != InferredType::Null {
            let mut out = String::from_str("nullable<");
            out.append(base);
            out.append(">");
            out
        } else {
            String::from_str(base)
        }
    }

    /// The column type that this inferred type finalizes to.
    pub fn to_data_type(&self) -> (r: DataType)
        ensures
            r == data_type_of(*self),
    {
        match self {
            InferredType::Null => DataType::Null,
            InferredType::Bool => DataType::Numeric,
            InferredType::Int => DataType::Int,
            InferredType::Float => DataType::Real,
            InferredType::String => DataType::Text,
        }
    }
}

/// A blank sample leaves any type as it is, however often it comes.
pub proof fn lemma_blank_update_unchanged(t: InferredType, sample: Seq<char>, times: nat)
    requires
        trim(sample).len() == 0,
    ensures
        updated(t, sample) == t,
        repeat_update(t, sample, times) == t,
    decreases times,
{
    if times > 0 {
        lemma_blank_update_unchanged(t, sample, (times - 1) as nat);
    }
}

/// The type after observing `sample` `times` times in a row.
pub open spec fn repeat_update(t: InferredType, sample: Seq<char>, times: nat) -> InferredType
    decreases times,
{
    if times == 0 {
        t
    } else {
        updated(repeat_update(t, sample, (times - 1) as nat), sample)
    }
}

/// Observing the same sample twice gives what observing it once gives.
pub proof fn lemma_update_idempotent(t: InferredType, sample: Seq<char>)
    ensures
        updated(updated(t, sample), sample) == updated(t, sample),
{
}

/// Promotion never lowers a type, and each observation either keeps the
/// type or moves it to the sample's class.
pub proof fn lemma_update_monotone(t: InferredType, sample: Seq<char>)
    ensures
        rank(t) <= rank(updated(t, sample)),
        updated(t, sample) == t || (trim(sample).len() > 0 && updated(t, sample) == classify(
            trim(sample),
        ) && rank(t) < rank(classify(trim(sample)))),
{
}

/// Once a column is text, no sample changes it.
pub proof fn lemma_text_absorbs(sample: Seq<char>)
    ensures
        updated(InferredType::String, sample) == InferredType::String,
{
}

/// Observations that start from a float type never lead back to an
/// integer, boolean or null type, and from an integer never back to a
/// boolean or null.
pub proof fn lemma_no_demotion(t: InferredType, sample: Seq<char>)
    ensures
        t == InferredType::Float ==> (updated(t, sample) == InferredType::Float || updated(t, sample)
            == InferredType::String),
        t == InferredType::Int ==> rank(updated(t, sample)) >= 2,
{
}

} // verus!
