use spwn_core::arena::Arena;
use spwn_core::bytecode::BinOp;
use spwn_core::error::ErrorKind;
use spwn_core::ops;
use spwn_core::sources::{CodeArea, CodeSpan, SpwnSource};
use spwn_core::value::{FloatBits, FloatMath, Pattern, StoredValue, Value, ValueType};

struct RealFloat;

impl FloatMath for RealFloat {
    fn of_int(&self, n: i64) -> FloatBits {
        FloatBits((n as f64).to_bits())
    }
    fn add(&self, a: FloatBits, b: FloatBits) -> FloatBits {
        FloatBits((f64::from_bits(a.0) + f64::from_bits(b.0)).to_bits())
    }
    fn sub(&self, a: FloatBits, b: FloatBits) -> FloatBits {
        FloatBits((f64::from_bits(a.0) - f64::from_bits(b.0)).to_bits())
    }
    fn mul(&self, a: FloatBits, b: FloatBits) -> FloatBits {
        FloatBits((f64::from_bits(a.0) * f64::from_bits(b.0)).to_bits())
    }
    fn div(&self, a: FloatBits, b: FloatBits) -> FloatBits {
        FloatBits((f64::from_bits(a.0) / f64::from_bits(b.0)).to_bits())
    }
    fn rem(&self, a: FloatBits, b: FloatBits) -> FloatBits {
        FloatBits((f64::from_bits(a.0) % f64::from_bits(b.0)).to_bits())
    }
    fn pow(&self, a: FloatBits, b: FloatBits) -> FloatBits {
        FloatBits(f64::from_bits(a.0).powf(f64::from_bits(b.0)).to_bits())
    }
    fn neg(&self, a: FloatBits) -> FloatBits {
        FloatBits((-f64::from_bits(a.0)).to_bits())
    }
    fn ipow(&self, a: i64, b: i64) -> i64 {
        (a as f64).powf(b as f64).floor() as i64
    }
    fn eq(&self, a: FloatBits, b: FloatBits) -> bool {
        f64::from_bits(a.0) == f64::from_bits(b.0)
    }
    fn eq_int(&self, n: i64, f: FloatBits) -> bool {
        (n as f64) == f64::from_bits(f.0)
    }
    fn lt(&self, a: FloatBits, b: FloatBits) -> bool {
        f64::from_bits(a.0) < f64::from_bits(b.0)
    }
    fn le(&self, a: FloatBits, b: FloatBits) -> bool {
        f64::from_bits(a.0) <= f64::from_bits(b.0)
    }
    fn gt(&self, a: FloatBits, b: FloatBits) -> bool {
        f64::from_bits(a.0) > f64::from_bits(b.0)
    }
    fn ge(&self, a: FloatBits, b: FloatBits) -> bool {
        f64::from_bits(a.0) >= f64::from_bits(b.0)
    }
    fn display(&self, a: FloatBits) -> String {
        format!("{}", f64::from_bits(a.0))
    }
}

fn area() -> CodeArea {
    CodeArea {
        src: SpwnSource::File("test.spwn".to_string()),
        span: CodeSpan { start: 0, end: 1 },
    }
}

fn sv(v: Value) -> StoredValue {
    StoredValue { value: v, area: area() }
}

fn fb(x: f64) -> FloatBits {
    FloatBits(x.to_bits())
}

fn as_f64(v: &Value) -> f64 {
    match v {
        Value::Float(b) => f64::from_bits(b.0),
        other => panic!("expected a float, got {:?}", other),
    }
}

#[test]
fn plus_int_int_stays_int() {
    let r = ops::plus(&sv(Value::Int(1)), &sv(Value::Int(2)), area(), &RealFloat).unwrap();
    assert_eq!(r.value, Value::Int(3));
}

#[test]
fn plus_promotes_exactly_when_one_operand_is_float() {
    let fm = RealFloat;
    let r = ops::plus(&sv(Value::Int(1)), &sv(Value::Float(fb(2.5))), area(), &fm).unwrap();
    assert_eq!(as_f64(&r.value), 3.5);
    let r = ops::plus(&sv(Value::Float(fb(1.5))), &sv(Value::Int(2)), area(), &fm).unwrap();
    assert_eq!(as_f64(&r.value), 3.5);
    let r = ops::plus(&sv(Value::Float(fb(1.5))), &sv(Value::Float(fb(2.0))), area(), &fm)
        .unwrap();
    assert_eq!(as_f64(&r.value), 3.5);
}

#[test]
fn minus_mult_div_modulo_promote_like_plus() {
    let fm = RealFloat;
    let r = ops::minus(&sv(Value::Int(5)), &sv(Value::Float(fb(1.5))), area(), &fm).unwrap();
    assert_eq!(as_f64(&r.value), 3.5);
    let r = ops::mult(&sv(Value::Float(fb(2.0))), &sv(Value::Int(3)), area(), &fm).unwrap();
    assert_eq!(as_f64(&r.value), 6.0);
    let r = ops::div(&sv(Value::Int(7)), &sv(Value::Float(fb(2.0))), area(), &fm).unwrap();
    assert_eq!(as_f64(&r.value), 3.5);
    let r = ops::modulo(&sv(Value::Float(fb(7.5))), &sv(Value::Int(2)), area(), &fm).unwrap();
    assert_eq!(as_f64(&r.value), 1.5);
    assert_eq!(
        ops::minus(&sv(Value::Int(5)), &sv(Value::Int(2)), area(), &fm).unwrap().value,
        Value::Int(3)
    );
    assert_eq!(
        ops::mult(&sv(Value::Int(5)), &sv(Value::Int(2)), area(), &fm).unwrap().value,
        Value::Int(10)
    );
    assert_eq!(
        ops::div(&sv(Value::Int(7)), &sv(Value::Int(2)), area(), &fm).unwrap().value,
        Value::Int(3)
    );
    assert_eq!(
        ops::modulo(&sv(Value::Int(7)), &sv(Value::Int(2)), area(), &fm).unwrap().value,
        Value::Int(1)
    );
}

#[test]
fn arithmetic_fails_on_non_numeric_pairs() {
    let fm = RealFloat;
    let r = ops::minus(&sv(Value::Bool(true)), &sv(Value::Int(1)), area(), &fm);
    match r {
        Err(ErrorKind::InvalidOperands { op, .. }) => assert_eq!(op, BinOp::Minus),
        other => panic!("expected InvalidOperands, got {:?}", other),
    }
    let r = ops::plus(&sv(Value::Int(1)), &sv(Value::Empty), area(), &fm);
    match r {
        Err(ErrorKind::InvalidOperands { op, a, b, .. }) => {
            assert_eq!(op, BinOp::Plus);
            assert_eq!(a.0, ValueType::Int);
            assert_eq!(b.0, ValueType::Empty);
        }
        other => panic!("expected InvalidOperands, got {:?}", other),
    }
}

#[test]
fn plus_concatenates_strings_and_arrays() {
    let fm = RealFloat;
    let r = ops::plus(
        &sv(Value::String("ab".to_string())),
        &sv(Value::String("cd".to_string())),
        area(),
        &fm,
    )
    .unwrap();
    assert_eq!(r.value, Value::String("abcd".to_string()));
    let k = spwn_core::value::ValueKey;
    let r = ops::plus(
        &sv(Value::Array(vec![k(0), k(1)])),
        &sv(Value::Array(vec![k(2)])),
        area(),
        &fm,
    )
    .unwrap();
    assert_eq!(r.value, Value::Array(vec![k(0), k(1), k(2)]));
}

#[test]
fn mult_repeats_strings_max_n_zero_times() {
    let fm = RealFloat;
    let r = ops::mult(&sv(Value::Int(3)), &sv(Value::String("ab".to_string())), area(), &fm)
        .unwrap();
    assert_eq!(r.value, Value::String("ababab".to_string()));
    let r = ops::mult(&sv(Value::String("ab".to_string())), &sv(Value::Int(-2)), area(), &fm)
        .unwrap();
    assert_eq!(r.value, Value::String(String::new()));
}

#[test]
fn division_by_zero_is_reported() {
    let fm = RealFloat;
    let r = ops::div(&sv(Value::Int(1)), &sv(Value::Int(0)), area(), &fm);
    match r {
        Err(ErrorKind::ThrownError { message, .. }) => {
            assert_eq!(message, "division by zero".to_string())
        }
        other => panic!("expected ThrownError, got {:?}", other),
    }
}

#[test]
fn pow_on_integers_floors_the_float_power() {
    let fm = RealFloat;
    let r = ops::pow(&sv(Value::Int(2)), &sv(Value::Int(10)), area(), &fm).unwrap();
    assert_eq!(r.value, Value::Int(1024));
}

#[test]
fn comparisons_work_cross_numeric() {
    let fm = RealFloat;
    let r = ops::greater(&sv(Value::Int(3)), &sv(Value::Float(fb(2.5))), area(), &fm).unwrap();
    assert_eq!(r.value, Value::Bool(true));
    let r = ops::lesser_eq(&sv(Value::Int(3)), &sv(Value::Int(3)), area(), &fm).unwrap();
    assert_eq!(r.value, Value::Bool(true));
    let r = ops::lesser(&sv(Value::Bool(true)), &sv(Value::Int(3)), area(), &fm);
    assert!(matches!(r, Err(ErrorKind::InvalidOperands { op: BinOp::Lt, .. })));
}

#[test]
fn unary_operators() {
    let fm = RealFloat;
    let r = ops::unary_negate(&sv(Value::Int(4)), area(), &fm).unwrap();
    assert_eq!(r.value, Value::Int(-4));
    let r = ops::unary_not(&sv(Value::Bool(false)), area()).unwrap();
    assert_eq!(r.value, Value::Bool(true));
    assert!(matches!(
        ops::unary_not(&sv(Value::Int(1)), area()),
        Err(ErrorKind::InvalidUnaryOperand { .. })
    ));
}

#[test]
fn equality_int_float_agrees_with_f64_comparison() {
    let fm = RealFloat;
    let mut mem = Arena::new();
    let k2 = mem.insert(sv(Value::Int(2)));
    let kf2 = mem.insert(sv(Value::Float(fb(2.0))));
    let kf25 = mem.insert(sv(Value::Float(fb(2.5))));
    assert!(ops::equality(&mem, k2, kf2, &fm));
    assert!(ops::equality(&mem, kf2, k2, &fm));
    assert!(!ops::equality(&mem, k2, kf25, &fm));
    let knan = mem.insert(sv(Value::Float(FloatBits(f64::NAN.to_bits()))));
    assert!(!ops::equality(&mem, knan, knan, &fm));
}

#[test]
fn equality_is_structural_through_the_arena() {
    let fm = RealFloat;
    let mut mem = Arena::new();
    let a1 = mem.insert(sv(Value::Int(1)));
    let a2 = mem.insert(sv(Value::Int(2)));
    let b1 = mem.insert(sv(Value::Int(1)));
    let b2 = mem.insert(sv(Value::Int(2)));
    let arr_a = mem.insert(sv(Value::Array(vec![a1, a2])));
    let arr_b = mem.insert(sv(Value::Array(vec![b1, b2])));
    let arr_c = mem.insert(sv(Value::Array(vec![b2, b1])));
    assert!(ops::equality(&mem, arr_a, arr_b, &fm));
    assert!(!ops::equality(&mem, arr_a, arr_c, &fm));
    let d_a = mem.insert(sv(Value::Dict(vec![
        ("x".to_string(), a1),
        ("y".to_string(), a2),
    ])));
    let d_b = mem.insert(sv(Value::Dict(vec![
        ("y".to_string(), b2),
        ("x".to_string(), b1),
    ])));
    assert!(ops::equality(&mem, d_a, d_b, &fm));
    let m_n = mem.insert(sv(Value::Maybe(None)));
    let m_n2 = mem.insert(sv(Value::Maybe(None)));
    let m_s = mem.insert(sv(Value::Maybe(Some(a1))));
    let m_s2 = mem.insert(sv(Value::Maybe(Some(b1))));
    assert!(ops::equality(&mem, m_n, m_n2, &fm));
    assert!(ops::equality(&mem, m_s, m_s2, &fm));
    assert!(!ops::equality(&mem, m_n, m_s, &fm));
    let i1 = mem.insert(sv(Value::Int(5)));
    let s1 = mem.insert(sv(Value::String("5".to_string())));
    assert!(!ops::equality(&mem, i1, s1, &fm));
}

#[test]
fn is_op_matches_types_and_any() {
    let r = ops::is_op(&sv(Value::Int(1)), &sv(Value::TypeIndicator(ValueType::Int)), area())
        .unwrap();
    assert_eq!(r.value, Value::Bool(true));
    let r = ops::is_op(&sv(Value::Int(1)), &sv(Value::Pattern(Pattern::Any)), area()).unwrap();
    assert_eq!(r.value, Value::Bool(true));
    let r = ops::is_op(
        &sv(Value::Bool(true)),
        &sv(Value::TypeIndicator(ValueType::Int)),
        area(),
    )
    .unwrap();
    assert_eq!(r.value, Value::Bool(false));
    assert!(matches!(
        ops::is_op(&sv(Value::Int(1)), &sv(Value::Int(2)), area()),
        Err(ErrorKind::TypeMismatch { .. })
    ));
}

#[test]
fn to_bool_rejects_non_booleans() {
    assert_eq!(ops::to_bool(&sv(Value::Bool(true))).unwrap(), true);
    assert!(matches!(
        ops::to_bool(&sv(Value::Int(1))),
        Err(ErrorKind::CannotConvertType { .. })
    ));
}

#[test]
fn remainder_by_zero_is_reported() {
    let fm = RealFloat;
    let r = ops::modulo(&sv(Value::Int(5)), &sv(Value::Int(0)), area(), &fm);
    match r {
        Err(ErrorKind::ThrownError { message, .. }) => {
            assert_eq!(message, "remainder by zero".to_string())
        }
        other => panic!("expected ThrownError, got {:?}", other),
    }
}

#[test]
fn to_pat_converts_type_indicators_and_patterns() {
    assert_eq!(
        ops::to_pat(&sv(Value::TypeIndicator(ValueType::Int))).unwrap(),
        Pattern::Type(ValueType::Int)
    );
    assert_eq!(ops::to_pat(&sv(Value::Pattern(Pattern::Any))).unwrap(), Pattern::Any);
    assert!(matches!(
        ops::to_pat(&sv(Value::Int(1))),
        Err(ErrorKind::CannotConvertType { .. })
    ));
}

#[test]
fn runtime_display_renders_nested_containers() {
    let mut mem = Arena::new();
    let one = mem.insert(StoredValue { value: Value::Int(1), area: CodeArea::internal() });
    let neg = mem.insert(StoredValue { value: Value::Int(-42), area: CodeArea::internal() });
    let arr = mem.insert(StoredValue {
        value: Value::Array(vec![one, one, neg]),
        area: CodeArea::internal(),
    });
    assert_eq!(spwn_core::display::runtime_display(&mem, arr, &RealFloat), "[1, 1, -42]");
    let dict = mem.insert(StoredValue {
        value: Value::Dict(vec![("a".to_string(), one), ("b".to_string(), arr)]),
        area: CodeArea::internal(),
    });
    assert_eq!(
        spwn_core::display::runtime_display(&mem, dict, &RealFloat),
        "{a: 1, b: [1, 1, -42]}"
    );
    let wrapped = mem.insert(StoredValue {
        value: Value::Maybe(Some(one)),
        area: CodeArea::internal(),
    });
    assert_eq!(spwn_core::display::runtime_display(&mem, wrapped, &RealFloat), "(1)?");
    let range = mem.insert(StoredValue {
        value: Value::Range(0, 10, 2),
        area: CodeArea::internal(),
    });
    assert_eq!(spwn_core::display::runtime_display(&mem, range, &RealFloat), "0..2..10");
}
