use strontium::machine::arith::{bit_binary, bit_not, bit_shift, calculate, compare, Calculated, Compared, Fault};
use strontium::machine::instruction::{CalculationMethod, ComparisonMethod};
use strontium::machine::register::{Dictionary, RegisterType, RegisterValue, RegisterValueError};

#[test]
fn value_bytes_read_back() {
    let values = vec![
        RegisterValue::Empty,
        RegisterValue::Int8(-5),
        RegisterValue::Int16(-300),
        RegisterValue::Int32(70000),
        RegisterValue::Int64(-1),
        RegisterValue::UInt8(200),
        RegisterValue::UInt16(65000),
        RegisterValue::UInt32(4000000000),
        RegisterValue::UInt64(u64::MAX),
        RegisterValue::Float32(1.5f32.to_bits()),
        RegisterValue::Float64(2.25f64.to_bits()),
        RegisterValue::String("héllo".to_string()),
        RegisterValue::Boolean(true),
        RegisterValue::Boolean(false),
    ];
    for v in values {
        let bytes = v.to_bytes();
        assert_eq!(RegisterValue::from_bytes(bytes).unwrap(), v);
    }
}

#[test]
fn boolean_uses_its_own_tag() {
    assert_eq!(RegisterValue::Boolean(true).to_bytes(), vec![13, 1]);
    assert_eq!(RegisterValue::Int32(1).to_bytes(), vec![4, 1, 0, 0, 0]);
    assert_eq!(RegisterValue::String("ab".to_string()).to_bytes(), vec![12, 2, 0, 0, 0, 97, 98]);
}

#[test]
fn value_decoding_errors() {
    assert_eq!(RegisterValue::from_bytes(vec![]), Err(RegisterValueError::NotEnoughBytes));
    assert_eq!(RegisterValue::from_bytes(vec![99]), Err(RegisterValueError::InvalidTypeTag));
    assert_eq!(RegisterValue::from_bytes(vec![5, 1, 2]), Err(RegisterValueError::NotEnoughBytes));
    assert!(matches!(RegisterValue::from_bytes(vec![12, 1, 0, 0, 0, 0xff]), Err(RegisterValueError::Utf8Error(_))));
}

#[test]
fn type_codes() {
    assert_eq!(RegisterValue::Empty.get_type(), RegisterType::Empty);
    assert_eq!(RegisterValue::Empty.get_type().code(), 100);
    assert_eq!(RegisterValue::Int64(3).get_type().code(), 104);
    assert_eq!(RegisterValue::Array(vec![]).get_type().code(), 114);
}

#[test]
fn integer_arithmetic_wraps() {
    let r = calculate(CalculationMethod::ADD, &RegisterValue::UInt8(250), &RegisterValue::UInt8(10));
    assert!(matches!(r, Calculated::Value(RegisterValue::UInt8(4))));
    let r = calculate(CalculationMethod::SUBTRACT, &RegisterValue::Int8(-128), &RegisterValue::Int8(1));
    assert!(matches!(r, Calculated::Value(RegisterValue::Int8(127))));
    let r = calculate(CalculationMethod::MULTIPLY, &RegisterValue::Int64(20), &RegisterValue::Int64(12));
    assert!(matches!(r, Calculated::Value(RegisterValue::Int64(240))));
    let r = calculate(CalculationMethod::DIVIDE, &RegisterValue::Int32(i32::MIN), &RegisterValue::Int32(-1));
    assert!(matches!(r, Calculated::Value(RegisterValue::Int32(i32::MIN))));
    let r = calculate(CalculationMethod::DIVIDE, &RegisterValue::Int32(-7), &RegisterValue::Int32(2));
    assert!(matches!(r, Calculated::Value(RegisterValue::Int32(-3))));
    let r = calculate(CalculationMethod::MODULO, &RegisterValue::Int32(-7), &RegisterValue::Int32(2));
    assert!(matches!(r, Calculated::Value(RegisterValue::Int32(-1))));
    let r = calculate(CalculationMethod::POWER, &RegisterValue::Int64(3), &RegisterValue::Int64(4));
    assert!(matches!(r, Calculated::Value(RegisterValue::Int64(81))));
}

#[test]
fn arithmetic_faults() {
    let r = calculate(CalculationMethod::DIVIDE, &RegisterValue::UInt16(1), &RegisterValue::UInt16(0));
    assert!(matches!(r, Calculated::Fault(Fault::DivisionByZero)));
    let r = calculate(CalculationMethod::ADD, &RegisterValue::Int8(1), &RegisterValue::Int16(1));
    assert!(matches!(r, Calculated::Fault(Fault::IncompatibleTypes(CalculationMethod::ADD))));
    let r = calculate(CalculationMethod::POWER, &RegisterValue::Int64(2), &RegisterValue::Int64(64));
    assert!(matches!(r, Calculated::Fault(Fault::Overflow)));
    let r = calculate(CalculationMethod::POWER, &RegisterValue::Int32(2), &RegisterValue::Int32(2));
    assert!(matches!(r, Calculated::Fault(Fault::IncompatibleTypes(CalculationMethod::POWER))));
}

#[test]
fn floats_and_strings() {
    let r = calculate(
        CalculationMethod::ADD,
        &RegisterValue::Float64(1.0f64.to_bits()),
        &RegisterValue::Float64(2.0f64.to_bits()),
    );
    assert!(matches!(r, Calculated::Float));
    let r = calculate(
        CalculationMethod::CONCAT,
        &RegisterValue::String("ab".to_string()),
        &RegisterValue::String("cd".to_string()),
    );
    match r {
        Calculated::Value(RegisterValue::String(s)) => assert_eq!(s, "abcd"),
        _ => panic!("expected a string"),
    }
}

#[test]
fn comparisons() {
    let r = compare(ComparisonMethod::LT, &RegisterValue::Int16(-2), &RegisterValue::Int16(5));
    assert!(matches!(r, Compared::Value(true)));
    let r = compare(ComparisonMethod::GTE, &RegisterValue::UInt64(5), &RegisterValue::UInt64(5));
    assert!(matches!(r, Compared::Value(true)));
    let r = compare(ComparisonMethod::EQ, &RegisterValue::Int8(1), &RegisterValue::UInt8(1));
    assert!(matches!(r, Compared::Value(false)));
    let r = compare(
        ComparisonMethod::LT,
        &RegisterValue::String("apple".to_string()),
        &RegisterValue::String("banana".to_string()),
    );
    assert!(matches!(r, Compared::Value(true)));
    let r = compare(ComparisonMethod::GT, &RegisterValue::Boolean(true), &RegisterValue::Boolean(false));
    assert!(matches!(r, Compared::Value(true)));
    let r = compare(ComparisonMethod::LT, &RegisterValue::Int8(1), &RegisterValue::UInt8(1));
    assert!(matches!(r, Compared::Fault(Fault::Unordered)));
    let r = compare(
        ComparisonMethod::EQ,
        &RegisterValue::Float32(1.0f32.to_bits()),
        &RegisterValue::Float32(1.0f32.to_bits()),
    );
    assert!(matches!(r, Compared::Float));
}

#[test]
fn same_as_compares_contents() {
    let a = RegisterValue::Array(vec![RegisterValue::UInt8(1), RegisterValue::String("x".to_string())]);
    let b = RegisterValue::Array(vec![RegisterValue::UInt8(1), RegisterValue::String("x".to_string())]);
    let c = RegisterValue::Array(vec![RegisterValue::UInt8(1)]);
    assert!(a.same_as(&b));
    assert!(!a.same_as(&c));
}

#[test]
fn bitwise_on_values() {
    assert!(matches!(bit_not(&RegisterValue::Int8(5)), Calculated::Value(RegisterValue::Int8(-6))));
    assert!(matches!(bit_not(&RegisterValue::UInt16(0)), Calculated::Value(RegisterValue::UInt16(65535))));
    assert!(matches!(bit_not(&RegisterValue::Boolean(false)), Calculated::Value(RegisterValue::Boolean(true))));
    assert!(matches!(bit_not(&RegisterValue::Empty), Calculated::Fault(Fault::BitwiseTypes)));
    assert!(matches!(
        bit_binary(2, &RegisterValue::Boolean(true), &RegisterValue::Boolean(true)),
        Calculated::Value(RegisterValue::Boolean(false))
    ));
    assert!(matches!(
        bit_binary(1, &RegisterValue::Int64(5), &RegisterValue::Int64(-8)),
        Calculated::Value(RegisterValue::Int64(-3))
    ));
    assert!(matches!(bit_shift(false, &RegisterValue::Int8(-128), 7), Calculated::Value(RegisterValue::Int8(-1))));
    assert!(matches!(bit_shift(true, &RegisterValue::UInt64(1), 64), Calculated::Fault(Fault::ShiftOverflow)));
    assert!(matches!(bit_shift(true, &RegisterValue::Boolean(true), 1), Calculated::Fault(Fault::BitwiseTypes)));
}

fn text(s: &str) -> String {
    s.to_string()
}

#[test]
fn equality_of_floats_inside_arrays_follows_ieee() {
    let zero = RegisterValue::Array(vec![RegisterValue::Float32(0.0f32.to_bits())]);
    let negative_zero = RegisterValue::Array(vec![RegisterValue::Float32((-0.0f32).to_bits())]);
    assert!(zero.same_as(&negative_zero));
    let nan = RegisterValue::Array(vec![RegisterValue::Float64(f64::NAN.to_bits())]);
    assert!(!nan.same_as(&nan));
    let one = RegisterValue::Array(vec![RegisterValue::Float64(1.0f64.to_bits())]);
    assert!(one.same_as(&one));
    assert!(matches!(compare(ComparisonMethod::EQ, &zero, &negative_zero), Compared::Value(true)));
    assert!(matches!(compare(ComparisonMethod::NEQ, &nan, &nan), Compared::Value(true)));
}

#[test]
fn equality_of_dicts_ignores_the_order_of_entries() {
    let ab = RegisterValue::Dict(Dictionary::from_entries(vec![(text("a"), RegisterValue::Int8(1)), (text("b"), RegisterValue::Int8(2))]));
    let ba = RegisterValue::Dict(Dictionary::from_entries(vec![(text("b"), RegisterValue::Int8(2)), (text("a"), RegisterValue::Int8(1))]));
    assert!(ab.same_as(&ba));
    let a = RegisterValue::Dict(Dictionary::from_entries(vec![(text("a"), RegisterValue::Int8(1))]));
    assert!(!a.same_as(&ab));
    assert!(!ab.same_as(&a));
    let other = RegisterValue::Dict(Dictionary::from_entries(vec![(text("a"), RegisterValue::Int8(1)), (text("b"), RegisterValue::Int8(3))]));
    assert!(!ab.same_as(&other));
}

#[test]
fn the_last_entry_of_a_name_counts() {
    let twice = RegisterValue::Dict(Dictionary::from_entries(vec![(text("a"), RegisterValue::Int8(1)), (text("a"), RegisterValue::Int8(2))]));
    let once = RegisterValue::Dict(Dictionary::from_entries(vec![(text("a"), RegisterValue::Int8(2))]));
    assert!(twice.same_as(&once));
    assert!(once.same_as(&twice));
    let first = RegisterValue::Dict(Dictionary::from_entries(vec![(text("a"), RegisterValue::Int8(1))]));
    assert!(!twice.same_as(&first));
    if let RegisterValue::Dict(d) = &twice {
        assert_eq!(d.entries(), &vec![(text("a"), RegisterValue::Int8(2))]);
    } else {
        panic!("expected a dictionary");
    }
    let mixed = Dictionary::from_entries(vec![
        (text("a"), RegisterValue::Int8(1)),
        (text("b"), RegisterValue::Int8(2)),
        (text("a"), RegisterValue::Int8(3)),
    ]);
    assert_eq!(mixed.entries(), &vec![(text("b"), RegisterValue::Int8(2)), (text("a"), RegisterValue::Int8(3))]);
}

#[test]
fn values_of_different_types_differ() {
    assert!(!RegisterValue::Int8(1).same_as(&RegisterValue::Int16(1)));
    assert!(RegisterValue::String(text("x")).same_as(&RegisterValue::String(text("x"))));
}

#[test]
fn powers_of_small_and_negative_bases() {
    let power = |a: i64, b: i64| calculate(CalculationMethod::POWER, &RegisterValue::Int64(a), &RegisterValue::Int64(b));
    assert!(matches!(power(-2, 63), Calculated::Value(RegisterValue::Int64(i64::MIN))));
    assert!(matches!(power(-2, 64), Calculated::Fault(Fault::Overflow)));
    assert!(matches!(power(2, 63), Calculated::Fault(Fault::Overflow)));
    assert!(matches!(power(2, 62), Calculated::Value(RegisterValue::Int64(4611686018427387904))));
    assert!(matches!(power(0, 0), Calculated::Value(RegisterValue::Int64(1))));
    assert!(matches!(power(0, 5), Calculated::Value(RegisterValue::Int64(0))));
    assert!(matches!(power(1, 4294967295), Calculated::Value(RegisterValue::Int64(1))));
    assert!(matches!(power(-1, 4294967295), Calculated::Value(RegisterValue::Int64(-1))));
    assert!(matches!(power(-1, 4294967294), Calculated::Value(RegisterValue::Int64(1))));
    assert!(matches!(power(-3, 3), Calculated::Value(RegisterValue::Int64(-27))));
}
