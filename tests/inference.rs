use sqlite_httpfs::inference::InferredType;
use sqlite_httpfs::schema::DataType;

#[test]
fn test_initial_null_remains_null_with_empty() {
    let mut t = InferredType::Null;
    t.update("");
    t.update("   ");
    assert_eq!(t, InferredType::Null);
}

#[test]
fn test_null_to_int_promotion() {
    let mut t = InferredType::Null;
    t.update("42");
    assert_eq!(t, InferredType::Int);
}

#[test]
fn test_null_to_float_promotion() {
    let mut t = InferredType::Null;
    t.update("3.14");
    assert_eq!(t, InferredType::Float);
}

#[test]
fn test_null_to_bool_promotion() {
    let mut t = InferredType::Null;
    t.update("TRUE");
    assert_eq!(t, InferredType::Bool);
}

#[test]
fn test_null_to_string_promotion() {
    let mut t = InferredType::Null;
    t.update("hello");
    assert_eq!(t, InferredType::String);
}

#[test]
fn test_int_promotes_to_float() {
    let mut t = InferredType::Int;
    t.update("3.5");
    assert_eq!(t, InferredType::Float);
}

#[test]
fn test_float_promotes_to_string() {
    let mut t = InferredType::Float;
    t.update("not a number");
    assert_eq!(t, InferredType::String);
}

#[test]
fn test_bool_promotes_to_string() {
    let mut t = InferredType::Bool;
    t.update("yes");
    assert_eq!(t, InferredType::String);
}

#[test]
fn test_update_chain_mixed_values() {
    let mut t = InferredType::Null;
    t.update("42");
    t.update("3.14");
    t.update("true");
    t.update("hello");
    assert_eq!(t, InferredType::String);
}

#[test]
fn test_as_str_non_nullable() {
    assert_eq!(InferredType::Int.as_str(false), "int");
    assert_eq!(InferredType::Float.as_str(false), "float");
    assert_eq!(InferredType::Null.as_str(false), "null");
}

#[test]
fn test_as_str_nullable() {
    assert_eq!(InferredType::Int.as_str(true), "nullable<int>");
    assert_eq!(InferredType::Bool.as_str(true), "nullable<bool>");
    assert_eq!(InferredType::Null.as_str(true), "null");
}

#[test]
fn repeated_blank_samples_leave_every_type_unchanged() {
    for start in [
        InferredType::Null,
        InferredType::Bool,
        InferredType::Int,
        InferredType::Float,
        InferredType::String,
    ] {
        let mut t = start;
        for _ in 0..5 {
            t.update("");
            t.update(" \t\n");
            t.update("\u{3000}");
        }
        assert_eq!(t, start);
    }
}

#[test]
fn text_absorbs_every_later_sample() {
    let mut t = InferredType::Null;
    t.update("abc");
    for s in ["1", "2.5", "false", "", "NaN", "-7"] {
        t.update(s);
        assert_eq!(t, InferredType::String);
    }
}

#[test]
fn promotion_never_goes_down() {
    let mut t = InferredType::Null;
    t.update("1e10");
    assert_eq!(t, InferredType::Float);
    t.update("12");
    assert_eq!(t, InferredType::Float);
    t.update("true");
    assert_eq!(t, InferredType::Float);
}

#[test]
fn boolean_then_integer_joins_to_integer() {
    let mut t = InferredType::Null;
    t.update("false");
    assert_eq!(t, InferredType::Bool);
    t.update("42");
    assert_eq!(t, InferredType::Int);
}

#[test]
fn integer_overflowing_64_bits_is_a_float() {
    let mut t = InferredType::Null;
    t.update("9999999999999999999999999");
    assert_eq!(t, InferredType::Float);
    let mut u = InferredType::Null;
    u.update("-9223372036854775808");
    assert_eq!(u, InferredType::Int);
    let mut w = InferredType::Null;
    w.update("9223372036854775808");
    assert_eq!(w, InferredType::Float);
}

#[test]
fn samples_are_trimmed_and_case_insensitive() {
    let mut t = InferredType::Null;
    t.update("  FaLsE  ");
    assert_eq!(t, InferredType::Bool);
    let mut u = InferredType::Null;
    u.update(" +17 ");
    assert_eq!(u, InferredType::Int);
}

#[test]
fn float_syntax_forms() {
    for s in ["1.", ".5", "1e5", "-2.5E-3", "inf", "-Infinity", "NaN", "+nan"] {
        let mut t = InferredType::Null;
        t.update(s);
        assert_eq!(t, InferredType::Float, "{}", s);
    }
    for s in [".", "e5", "1e", "1.2.3", "0x10", "1_000", "--1"] {
        let mut t = InferredType::Null;
        t.update(s);
        assert_eq!(t, InferredType::String, "{}", s);
    }
}

#[test]
fn finalize_maps_each_type() {
    assert_eq!(InferredType::Null.to_data_type(), DataType::Null);
    assert_eq!(InferredType::Bool.to_data_type(), DataType::Numeric);
    assert_eq!(InferredType::Int.to_data_type(), DataType::Int);
    assert_eq!(InferredType::Float.to_data_type(), DataType::Real);
    assert_eq!(InferredType::String.to_data_type(), DataType::Text);
    assert_eq!(InferredType::String.as_str(true), "nullable<string>");
    assert_eq!(InferredType::Float.as_str(true), "nullable<float>");
}
