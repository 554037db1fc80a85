use interpreter::ast::{BinaryOperator, UnaryOperator};
use interpreter::error::InterpreterError;
use interpreter::operators::{integer_power, range, Applied};
use interpreter::value::{compare_reals, Comparison, TValue};

fn value_of(applied: Applied<TValue, InterpreterError>) -> TValue {
    match applied {
        Applied::Value(value) => value,
        other => panic!("no value: {:?}", other),
    }
}

fn refused(applied: Applied<TValue, InterpreterError>) -> String {
    match applied {
        Applied::Refused(InterpreterError::OperationNotPossible(operator)) => operator,
        other => panic!("not refused: {:?}", other),
    }
}

fn real_of(x: f64) -> TValue {
    TValue::Real(x.to_bits())
}

#[test]
fn integer_division_truncates() {
    let seven = TValue::Number(7);
    let two = TValue::Number(2);
    assert_eq!(value_of(seven.binary_operate(&two, &BinaryOperator::IDiv)), TValue::Number(3));
    let minus_seven = TValue::Number(-7);
    assert_eq!(
        value_of(minus_seven.binary_operate(&two, &BinaryOperator::IDiv)),
        TValue::Number(-3)
    );
    assert_eq!(
        value_of(seven.binary_operate(&TValue::Number(-2), &BinaryOperator::IDiv)),
        TValue::Number(-3)
    );
}

#[test]
fn modulo_keeps_the_sign_of_the_dividend() {
    let two = TValue::Number(2);
    assert_eq!(
        value_of(TValue::Number(7).binary_operate(&two, &BinaryOperator::Mod)),
        TValue::Number(1)
    );
    assert_eq!(
        value_of(TValue::Number(-7).binary_operate(&two, &BinaryOperator::Mod)),
        TValue::Number(-1)
    );
    assert_eq!(
        value_of(TValue::Number(7).binary_operate(&TValue::Number(-2), &BinaryOperator::Mod)),
        TValue::Number(1)
    );
    assert_eq!(
        value_of(TValue::Number(i32::MIN).binary_operate(&TValue::Number(-1), &BinaryOperator::Mod)),
        TValue::Number(0)
    );
}

#[test]
fn division_by_zero_is_refused() {
    let zero = TValue::Number(0);
    assert_eq!(refused(TValue::Number(1).binary_operate(&zero, &BinaryOperator::IDiv)), "IDiv");
    assert_eq!(refused(TValue::Number(1).binary_operate(&zero, &BinaryOperator::Mod)), "Mod");
}

#[test]
fn arithmetic_refuses_what_no_number_holds() {
    let max = TValue::Number(i32::MAX);
    let min = TValue::Number(i32::MIN);
    let one = TValue::Number(1);
    assert_eq!(refused(max.binary_operate(&one, &BinaryOperator::Add)), "Add");
    assert_eq!(refused(min.binary_operate(&one, &BinaryOperator::Sub)), "Sub");
    assert_eq!(refused(max.binary_operate(&TValue::Number(2), &BinaryOperator::Mul)), "Mul");
    assert_eq!(refused(min.binary_operate(&TValue::Number(-1), &BinaryOperator::IDiv)), "IDiv");
    assert_eq!(
        value_of(TValue::Number(40).binary_operate(&TValue::Number(2), &BinaryOperator::Add)),
        TValue::Number(42)
    );
    assert_eq!(
        value_of(TValue::Number(40).binary_operate(&TValue::Number(2), &BinaryOperator::Sub)),
        TValue::Number(38)
    );
    assert_eq!(
        value_of(TValue::Number(-6).binary_operate(&TValue::Number(7), &BinaryOperator::Mul)),
        TValue::Number(-42)
    );
}

#[test]
fn real_arithmetic_is_left_to_the_host() {
    let two = TValue::Number(2);
    let half = real_of(1.5);
    assert!(matches!(two.binary_operate(&half, &BinaryOperator::Add), Applied::Deferred));
    assert!(matches!(half.binary_operate(&two, &BinaryOperator::Mul), Applied::Deferred));
    assert!(matches!(half.binary_operate(&half, &BinaryOperator::Sub), Applied::Deferred));
    assert!(matches!(
        TValue::Number(7).binary_operate(&two, &BinaryOperator::RDiv),
        Applied::Deferred
    ));
    assert!(matches!(
        two.binary_operate(&TValue::Number(-1), &BinaryOperator::Pow),
        Applied::Deferred
    ));
    assert_eq!(
        refused(TValue::String("a".to_string()).binary_operate(&half, &BinaryOperator::Add)),
        "Add"
    );
}

#[test]
fn powers_of_numbers() {
    assert_eq!(integer_power(2, 10), Some(1024));
    assert_eq!(integer_power(-2, 31), Some(i32::MIN));
    assert_eq!(integer_power(2, 31), None);
    assert_eq!(integer_power(-2, 32), None);
    assert_eq!(integer_power(0, 0), Some(1));
    assert_eq!(integer_power(0, 2_000_000_000), Some(0));
    assert_eq!(integer_power(1, 2_000_000_000), Some(1));
    assert_eq!(integer_power(-1, 2_000_000_001), Some(-1));
    assert_eq!(integer_power(-1, 2_000_000_000), Some(1));
    assert_eq!(integer_power(46341, 2), None);
    assert_eq!(integer_power(46340, 2), Some(2147395600));
    assert_eq!(
        value_of(TValue::Number(3).binary_operate(&TValue::Number(4), &BinaryOperator::Pow)),
        TValue::Number(81)
    );
    assert_eq!(
        refused(TValue::Number(10).binary_operate(&TValue::Number(10), &BinaryOperator::Pow)),
        "Pow"
    );
}

#[test]
fn range_counts_upwards() {
    let expected = TValue::Array(vec![
        TValue::Number(1),
        TValue::Number(2),
        TValue::Number(3),
        TValue::Number(4),
        TValue::Number(5),
    ]);
    assert_eq!(
        value_of(TValue::Number(1).binary_operate(&TValue::Number(5), &BinaryOperator::Range)),
        expected
    );
    assert_eq!(
        value_of(TValue::Number(5).binary_operate(&TValue::Number(1), &BinaryOperator::Range)),
        TValue::Array(vec![])
    );
    assert_eq!(range(3, 3), TValue::Array(vec![TValue::Number(3)]));
    assert_eq!(
        range(i32::MAX - 1, i32::MAX),
        TValue::Array(vec![TValue::Number(i32::MAX - 1), TValue::Number(i32::MAX)])
    );
    assert_eq!(
        refused(TValue::Number(1).binary_operate(&real_of(2.0), &BinaryOperator::Range)),
        "Range"
    );
}

#[test]
fn equality_answers_for_every_pair() {
    let samples = vec![
        TValue::Null,
        TValue::Boolean(true),
        TValue::Number(1),
        real_of(1.0),
        TValue::String("1".to_string()),
        TValue::Array(vec![TValue::Number(1)]),
        TValue::Dictionary(vec![("one".to_string(), TValue::Number(1))]),
        TValue::Object(1),
    ];
    for (i, left) in samples.iter().enumerate() {
        for (j, right) in samples.iter().enumerate() {
            assert_eq!(
                value_of(left.binary_operate(right, &BinaryOperator::Eq)),
                TValue::Boolean(i == j)
            );
            assert_eq!(
                value_of(left.binary_operate(right, &BinaryOperator::Neq)),
                TValue::Boolean(i != j)
            );
        }
    }
}

#[test]
fn equality_of_reals_is_that_of_the_numbers() {
    assert!(real_of(0.0).same(&real_of(-0.0)));
    assert!(!real_of(f64::NAN).same(&real_of(f64::NAN)));
    assert!(real_of(1.5).same(&real_of(1.5)));
    assert!(!real_of(1.5).same(&real_of(-1.5)));
    assert!(real_of(f64::INFINITY).same(&real_of(f64::INFINITY)));
}

#[test]
fn reals_are_ordered_as_numbers() {
    let samples = [
        f64::NEG_INFINITY,
        -1.0e300,
        -2.5,
        -f64::MIN_POSITIVE,
        -0.0,
        0.0,
        5e-324,
        1.0,
        1.5,
        3.0e100,
        f64::INFINITY,
        f64::NAN,
    ];
    for a in samples {
        for b in samples {
            let expected = match a.partial_cmp(&b) {
                Some(std::cmp::Ordering::Less) => Comparison::Less,
                Some(std::cmp::Ordering::Equal) => Comparison::Equal,
                Some(std::cmp::Ordering::Greater) => Comparison::Greater,
                None => Comparison::Unordered,
            };
            assert_eq!(compare_reals(a.to_bits(), b.to_bits()), expected, "{} and {}", a, b);
        }
    }
}

#[test]
fn dictionaries_are_equal_whatever_the_order() {
    let one = TValue::Dictionary(vec![
        ("a".to_string(), TValue::Number(1)),
        ("b".to_string(), TValue::Number(2)),
    ]);
    let other = TValue::Dictionary(vec![
        ("b".to_string(), TValue::Number(2)),
        ("a".to_string(), TValue::Number(1)),
    ]);
    let third = TValue::Dictionary(vec![
        ("a".to_string(), TValue::Number(1)),
        ("b".to_string(), TValue::Number(3)),
    ]);
    assert!(one.same(&other));
    assert!(other.same(&one));
    assert!(!one.same(&third));
}

#[test]
fn orderings_refuse_mismatched_shapes() {
    let one = TValue::Number(1);
    let text = TValue::String("a".to_string());
    assert_eq!(refused(one.binary_operate(&text, &BinaryOperator::Lt)), "Lt");
    assert_eq!(refused(one.binary_operate(&real_of(1.0), &BinaryOperator::Geq)), "Geq");
    assert_eq!(refused(TValue::Object(1).binary_operate(&TValue::Object(1), &BinaryOperator::Leq)), "Leq");
    assert_eq!(
        value_of(one.binary_operate(&TValue::Number(2), &BinaryOperator::Lt)),
        TValue::Boolean(true)
    );
    assert_eq!(
        value_of(one.binary_operate(&TValue::Number(1), &BinaryOperator::Leq)),
        TValue::Boolean(true)
    );
    assert_eq!(
        value_of(one.binary_operate(&TValue::Number(1), &BinaryOperator::Gt)),
        TValue::Boolean(false)
    );
    assert_eq!(
        value_of(real_of(f64::NAN).binary_operate(&real_of(1.0), &BinaryOperator::Geq)),
        TValue::Boolean(false)
    );
}

#[test]
fn texts_and_arrays_are_ordered_item_by_item() {
    let text = |s: &str| TValue::String(s.to_string());
    assert_eq!(text("abc").compare(&text("abd")), Comparison::Less);
    assert_eq!(text("abc").compare(&text("ab")), Comparison::Greater);
    assert_eq!(text("").compare(&text("")), Comparison::Equal);
    assert_eq!(text("é").compare(&text("z")), Comparison::Greater);
    let array = |items: &[i32]| TValue::Array(items.iter().map(|n| TValue::Number(*n)).collect());
    assert_eq!(array(&[1, 2]).compare(&array(&[1, 3])), Comparison::Less);
    assert_eq!(array(&[1, 2]).compare(&array(&[1, 2, 0])), Comparison::Less);
    assert_eq!(array(&[2]).compare(&array(&[1, 2, 0])), Comparison::Greater);
    assert_eq!(
        TValue::Array(vec![TValue::Number(1)]).compare(&TValue::Array(vec![text("a")])),
        Comparison::Incomparable
    );
    assert_eq!(TValue::Boolean(false).compare(&TValue::Boolean(true)), Comparison::Less);
    assert_eq!(TValue::Null.compare(&TValue::Null), Comparison::Equal);
}

#[test]
fn logic_takes_booleans() {
    let yes = TValue::Boolean(true);
    let no = TValue::Boolean(false);
    assert_eq!(value_of(yes.binary_operate(&no, &BinaryOperator::And)), TValue::Boolean(false));
    assert_eq!(value_of(yes.binary_operate(&no, &BinaryOperator::Or)), TValue::Boolean(true));
    assert_eq!(value_of(yes.binary_operate(&no, &BinaryOperator::Xor)), TValue::Boolean(true));
    assert_eq!(value_of(yes.binary_operate(&yes, &BinaryOperator::Xor)), TValue::Boolean(false));
    assert_eq!(refused(yes.binary_operate(&TValue::Number(1), &BinaryOperator::And)), "And");
}

#[test]
fn unary_operators() {
    assert_eq!(
        TValue::Boolean(true).unary_operate(&UnaryOperator::Not).unwrap(),
        TValue::Boolean(false)
    );
    assert_eq!(TValue::Number(5).unary_operate(&UnaryOperator::Sub).unwrap(), TValue::Number(-5));
    assert_eq!(TValue::Number(5).unary_operate(&UnaryOperator::Add).unwrap(), TValue::Number(5));
    assert_eq!(real_of(1.5).unary_operate(&UnaryOperator::Sub).unwrap(), real_of(-1.5));
    assert_eq!(real_of(-0.0).unary_operate(&UnaryOperator::Sub).unwrap(), real_of(0.0));
    assert!(matches!(
        TValue::Number(i32::MIN).unary_operate(&UnaryOperator::Sub),
        Err(InterpreterError::OperationNotPossible(_))
    ));
    assert!(matches!(
        TValue::Number(1).unary_operate(&UnaryOperator::Not),
        Err(InterpreterError::OperationNotPossible(_))
    ));
    assert!(matches!(
        TValue::Null.unary_operate(&UnaryOperator::Add),
        Err(InterpreterError::OperationNotPossible(_))
    ));
}

#[test]
fn a_failure_is_thrown_as_the_name_of_its_kind() {
    assert_eq!(
        InterpreterError::TypeMismatch.thrown(),
        TValue::String("TypeMismatch".to_string())
    );
    assert_eq!(
        InterpreterError::UndefinedReference.thrown(),
        TValue::String("UndefinedReference".to_string())
    );
    assert_eq!(
        InterpreterError::AccessViolation.thrown(),
        TValue::String("AccessViolation".to_string())
    );
    assert_eq!(
        InterpreterError::OperationNotPossible("Add".to_string()).thrown(),
        TValue::String("OperationNotPossible".to_string())
    );
}

#[test]
fn a_copy_is_equal_to_what_it_copies() {
    let value = TValue::Array(vec![
        TValue::Dictionary(vec![("k".to_string(), real_of(2.5))]),
        TValue::String("s".to_string()),
        TValue::Null,
    ]);
    assert_eq!(value.clone(), value);
}
