//! What the operators of the language do to values.
//!
//! The engine computes with integers only. Where an operation is arithmetic on reals, its
//! result is left to the host: [`TValue::binary_operate`] says so by answering
//! [`Applied::Deferred`].

use vstd::prelude::*;
use vstd::arithmetic::power::{lemma0_pow, lemma1_pow, pow};
use crate::ast::{BinaryOperator, UnaryOperator};
use crate::error::{Failure, InterpreterError};
use crate::value::{lemma_array_view, values_view, Comparison, SIGN_BIT, TValue, Value};

verus! {

/// What became of an operator that was applied to its operands.
#[derive(Debug)]
pub enum Applied<V, E> {
    /// The result.
    Value(V),
    /// The operator has no meaning for these operands.
    Refused(E),
    /// The operation is arithmetic on reals, which the host computes.
    Deferred,
}

impl View for Applied<TValue, InterpreterError> {
    type V = Applied<Value, Failure>;

    open spec fn view(&self) -> Applied<Value, Failure> {
        match self {
            Applied::Value(value) => Applied::Value(value@),
            Applied::Refused(error) => Applied::Refused(error@),
            Applied::Deferred => Applied::Deferred,
        }
    }
}

/// The name of a binary operator, as failures give it.
pub open spec fn binary_name(operator: BinaryOperator) -> Seq<char> {
    match operator {
        BinaryOperator::Add => "Add"@,
        BinaryOperator::Sub => "Sub"@,
        BinaryOperator::Mul => "Mul"@,
        BinaryOperator::RDiv => "RDiv"@,
        BinaryOperator::IDiv => "IDiv"@,
        BinaryOperator::Mod => "Mod"@,
        BinaryOperator::Pow => "Pow"@,
        BinaryOperator::Eq => "Eq"@,
        BinaryOperator::Neq => "Neq"@,
        BinaryOperator::Lt => "Lt"@,
        BinaryOperator::Gt => "Gt"@,
        BinaryOperator::Leq => "Leq"@,
        BinaryOperator::Geq => "Geq"@,
        BinaryOperator::And => "And"@,
        BinaryOperator::Or => "Or"@,
        BinaryOperator::Xor => "Xor"@,
        BinaryOperator::Range => "Range"@,
    }
}

/// The name of a unary operator, as failures give it.
pub open spec fn unary_name(operator: UnaryOperator) -> Seq<char> {
    match operator {
        UnaryOperator::Not => "Not"@,
        UnaryOperator::Add => "Add"@,
        UnaryOperator::Sub => "Sub"@,
    }
}

/// Whether an integer can be held by a number of the language.
pub open spec fn fits(n: int) -> bool {
    i32::MIN <= n <= i32::MAX
}

/// The quotient of a division that rounds towards zero.
pub open spec fn truncated_quotient(a: int, b: int) -> int
    recommends
        b != 0,
{
    if a >= 0 && b > 0 {
        a / b
    } else if a >= 0 {
        -(a / (-b))
    } else if b > 0 {
        -((-a) / b)
    } else {
        (-a) / (-b)
    }
}

/// The remainder of a division that rounds towards zero: it has the sign of the dividend.
pub open spec fn truncated_remainder(a: int, b: int) -> int
    recommends
        b != 0,
{
    a - b * truncated_quotient(a, b)
}

/// A number, or the refusal of the operator where the integer is out of range.
pub open spec fn number_or_refused(n: int, operator: BinaryOperator) -> Applied<Value, Failure> {
    if fits(n) {
        Applied::Value(Value::Number(n as i32))
    } else {
        Applied::Refused(Failure::OperationNotPossible(binary_name(operator)))
    }
}

/// Whether a value is a number or a real.
pub open spec fn is_numeric(value: Value) -> bool {
    value is Number || value is Real
}

/// The numbers from `first` up to `last`, both included.
pub open spec fn range_items(first: int, last: int) -> Seq<Value> {
    Seq::new(
        if first <= last {
            (last - first + 1) as nat
        } else {
            0
        },
        |i: int| Value::Number((first + i) as i32),
    )
}

impl Value {
    /// What a binary operator makes of two values.
    ///
    /// `Eq` and `Neq` answer for every pair. The four orderings refuse operands that
    /// [`Value::compare`] cannot set against each other, and are false for a pair that has no
    /// order. Arithmetic on two numbers is exact: it refuses a result that no number holds and
    /// a division by zero; `IDiv` rounds towards zero and `Mod` keeps the sign of the
    /// dividend. Real division, a power with a negative exponent and all arithmetic with a
    /// real operand are left to the host. `And`, `Or` and `Xor` take booleans, `Range` takes
    /// numbers.
    pub open spec fn binary(self, other: Value, operator: BinaryOperator) -> Applied<
        Value,
        Failure,
    > {
        let refused = Applied::Refused(Failure::OperationNotPossible(binary_name(operator)));
        match operator {
            BinaryOperator::Eq => Applied::Value(Value::Boolean(self.same(other))),
            BinaryOperator::Neq => Applied::Value(Value::Boolean(!self.same(other))),
            BinaryOperator::Lt | BinaryOperator::Gt | BinaryOperator::Leq | BinaryOperator::Geq => {
                let comparison = self.compare(other);
                match comparison {
                    Comparison::Incomparable => refused,
                    _ => Applied::Value(
                        Value::Boolean(
                            match operator {
                                BinaryOperator::Lt => comparison == Comparison::Less,
                                BinaryOperator::Gt => comparison == Comparison::Greater,
                                BinaryOperator::Leq => comparison == Comparison::Less
                                    || comparison == Comparison::Equal,
                                _ => comparison == Comparison::Greater || comparison
                                    == Comparison::Equal,
                            },
                        ),
                    ),
                }
            },
            BinaryOperator::And | BinaryOperator::Or | BinaryOperator::Xor => match (self, other) {
                (Value::Boolean(a), Value::Boolean(b)) => Applied::Value(
                    Value::Boolean(
                        match operator {
                            BinaryOperator::And => a && b,
                            BinaryOperator::Or => a || b,
                            _ => a != b,
                        },
                    ),
                ),
                _ => refused,
            },
            BinaryOperator::Range => match (self, other) {
                (Value::Number(a), Value::Number(b)) => Applied::Value(
                    Value::Array(range_items(a as int, b as int)),
                ),
                _ => refused,
            },
            _ => match (self, other) {
                (Value::Number(a), Value::Number(b)) => match operator {
                    BinaryOperator::Add => number_or_refused(a + b, operator),
                    BinaryOperator::Sub => number_or_refused(a - b, operator),
                    BinaryOperator::Mul => number_or_refused(a * b, operator),
                    BinaryOperator::IDiv => if b == 0 {
                        refused
                    } else {
                        number_or_refused(truncated_quotient(a as int, b as int), operator)
                    },
                    BinaryOperator::Mod => if b == 0 {
                        refused
                    } else {
                        number_or_refused(truncated_remainder(a as int, b as int), operator)
                    },
                    BinaryOperator::Pow => if b >= 0 {
                        number_or_refused(pow(a as int, b as nat), operator)
                    } else {
                        Applied::Deferred
                    },
                    _ => Applied::Deferred,
                },
                _ => if is_numeric(self) && is_numeric(other) {
                    Applied::Deferred
                } else {
                    refused
                },
            },
        }
    }

    /// What a unary operator makes of a value: `Not` takes a boolean, `Add` and `Sub` take a
    /// number or a real. The negative of the smallest number is refused.
    pub open spec fn unary(self, operator: UnaryOperator) -> Result<Value, Failure> {
        let refused = Err(Failure::OperationNotPossible(unary_name(operator)));
        match (operator, self) {
            (UnaryOperator::Not, Value::Boolean(b)) => Ok(Value::Boolean(!b)),
            (UnaryOperator::Add, Value::Number(n)) => Ok(self),
            (UnaryOperator::Add, Value::Real(bits)) => Ok(self),
            (UnaryOperator::Sub, Value::Number(n)) => if n == i32::MIN {
                refused
            } else {
                Ok(Value::Number((-n) as i32))
            },
            (UnaryOperator::Sub, Value::Real(bits)) => Ok(
                Value::Real(
                    if bits >= SIGN_BIT {
                        (bits - SIGN_BIT) as u64
                    } else {
                        (bits + SIGN_BIT) as u64
                    },
                ),
            ),
            _ => refused,
        }
    }
}

/// The size of an integer without its sign.
pub open spec fn magnitude(n: int) -> int {
    if n < 0 {
        -n
    } else {
        n
    }
}

proof fn lemma_power_of_minus_one(e: nat)
    ensures
        pow(-1, e) == if e % 2 == 0 {
            1int
        } else {
            -1int
        },
    decreases e,
{
    reveal(pow);
    if e > 0 {
        lemma_power_of_minus_one((e - 1) as nat);
    }
}

proof fn lemma_power_grows(b: int, i: nat, e: nat)
    requires
        magnitude(b) >= 2,
        i <= e,
    ensures
        magnitude(pow(b, i)) >= 1,
        magnitude(pow(b, e)) >= magnitude(pow(b, i)),
        i < e ==> magnitude(pow(b, e)) >= 2 * magnitude(pow(b, i)),
    decreases e,
{
    reveal(pow);
    if i > 0 {
        lemma_power_grows(b, 0, (i - 1) as nat);
        lemma_power_grows(b, (i - 1) as nat, (i - 1) as nat);
        let x = pow(b, (i - 1) as nat);
        assert(magnitude(b * x) >= 1) by (nonlinear_arith)
            requires
                magnitude(b) >= 2,
                magnitude(x) >= 1,
        ;
    }
    if i < e {
        lemma_power_grows(b, i, (e - 1) as nat);
        let x = pow(b, (e - 1) as nat);
        assert(magnitude(b * x) >= 2 * magnitude(x)) by (nonlinear_arith)
            requires
                magnitude(b) >= 2,
        ;
    }
}

/// The power of a number with an exponent that is not negative, where a number holds it.
/// There is none for a negative exponent.
pub fn integer_power(base: i32, exponent: i32) -> (r: Option<i32>)
    ensures
        match r {
            Some(p) => exponent >= 0 && p == pow(base as int, exponent as nat),
            None => exponent < 0 || !fits(pow(base as int, exponent as nat)),
        },
{
    if exponent < 0 {
        return None;
    }
    if exponent == 0 {
        proof {
            reveal(pow);
        }
        return Some(1);
    }
    if base == 0 {
        proof {
            lemma0_pow(exponent as nat);
        }
        return Some(0);
    }
    if base == 1 {
        proof {
            lemma1_pow(exponent as nat);
        }
        return Some(1);
    }
    if base == -1 {
        proof {
            lemma_power_of_minus_one(exponent as nat);
        }
        return Some(if exponent % 2 == 0 { 1 } else { -1 });
    }
    let mut product: i64 = 1;
    let mut i: i32 = 0;
    proof {
        reveal(pow);
    }
    while i < exponent
        invariant
            0 <= i <= exponent,
            magnitude(base as int) >= 2,
            product == pow(base as int, i as nat),
            fits(product as int),
        decreases exponent - i,
    {
        proof {
            reveal(pow);
            lemma_power_grows(base as int, (i + 1) as nat, exponent as nat);
            assert(pow(base as int, (i + 1) as nat) == base * pow(base as int, i as nat));
            assert(base * product == product * base) by (nonlinear_arith);
        }
        assert(-0x8000_0000 * 0x8000_0000 <= product * base <= 0x8000_0000 * 0x8000_0000)
            by (nonlinear_arith)
            requires
                -0x8000_0000 <= product <= 0x8000_0000,
                -0x8000_0000 <= base <= 0x8000_0000,
        ;
        let next: i64 = product * (base as i64);
        if next > 0x7FFF_FFFF || next < -0x8000_0000 {
            return None;
        }
        product = next;
        i += 1;
    }
    Some(product as i32)
}

} // verus!

verus! {

/// The refusal of a binary operator.
pub fn binary_refusal(operator: &BinaryOperator) -> (error: InterpreterError)
    ensures
        error@ == Failure::OperationNotPossible(binary_name(*operator)),
{
    let name = match operator {
        BinaryOperator::Add => "Add",
        BinaryOperator::Sub => "Sub",
        BinaryOperator::Mul => "Mul",
        BinaryOperator::RDiv => "RDiv",
        BinaryOperator::IDiv => "IDiv",
        BinaryOperator::Mod => "Mod",
        BinaryOperator::Pow => "Pow",
        BinaryOperator::Eq => "Eq",
        BinaryOperator::Neq => "Neq",
        BinaryOperator::Lt => "Lt",
        BinaryOperator::Gt => "Gt",
        BinaryOperator::Leq => "Leq",
        BinaryOperator::Geq => "Geq",
        BinaryOperator::And => "And",
        BinaryOperator::Or => "Or",
        BinaryOperator::Xor => "Xor",
        BinaryOperator::Range => "Range",
    };
    InterpreterError::OperationNotPossible(String::from_str(name))
}

/// The refusal of a unary operator.
pub fn unary_refusal(operator: &UnaryOperator) -> (error: InterpreterError)
    ensures
        error@ == Failure::OperationNotPossible(unary_name(*operator)),
{
    let name = match operator {
        UnaryOperator::Not => "Not",
        UnaryOperator::Add => "Add",
        UnaryOperator::Sub => "Sub",
    };
    InterpreterError::OperationNotPossible(String::from_str(name))
}

/// A number for an integer that fits, the refusal of the operator for one that does not.
fn number_or_refusal(n: i64, operator: &BinaryOperator) -> (r: Applied<TValue, InterpreterError>)
    ensures
        r@ == number_or_refused(n as int, *operator),
{
    if -0x8000_0000 <= n && n <= 0x7FFF_FFFF {
        Applied::Value(TValue::Number(n as i32))
    } else {
        Applied::Refused(binary_refusal(operator))
    }
}

/// Divides, rounding towards zero.
fn divide(x: i64, y: i64) -> (r: (i64, i64))
    requires
        y != 0,
        -0x8000_0000 <= x <= 0x7FFF_FFFF,
        -0x8000_0000 <= y <= 0x7FFF_FFFF,
    ensures
        r.0 == truncated_quotient(x as int, y as int),
        r.1 == truncated_remainder(x as int, y as int),
{
    let size_x: u64 = if x < 0 { (-x) as u64 } else { x as u64 };
    let size_y: u64 = if y < 0 { (-y) as u64 } else { y as u64 };
    let quotient: i64 = (size_x / size_y) as i64;
    let remainder: i64 = (size_x % size_y) as i64;
    assert(size_x == size_y * (size_x / size_y) + size_x % size_y) by (nonlinear_arith)
        requires
            size_y > 0,
    ;
    assert(size_x / size_y <= size_x) by (nonlinear_arith)
        requires
            size_y > 0,
    ;
    assert(y * -(size_x / size_y) == -(y * (size_x / size_y))) by (nonlinear_arith);
    assert((-y) * (size_x / size_y) == -(y * (size_x / size_y))) by (nonlinear_arith);
    (
        if (x < 0) != (y < 0) { -quotient } else { quotient },
        if x < 0 { -remainder } else { remainder },
    )
}

/// The array of the numbers from `first` up to `last`.
pub fn range(first: i32, last: i32) -> (r: TValue)
    ensures
        r@ == Value::Array(range_items(first as int, last as int)),
{
    let mut items: Vec<TValue> = Vec::new();
    let mut next: i64 = first as i64;
    while next <= last as i64
        invariant
            first <= next,
            first <= last ==> next <= last + 1,
            first > last ==> next == first,
            items@.len() == next - first,
            forall|j: int| 0 <= j < items@.len() ==> items@[j] == TValue::Number((first + j) as i32),
        decreases last - next + 1,
    {
        items.push(TValue::Number(next as i32));
        next += 1;
    }
    proof {
        lemma_array_view(items);
        assert(values_view(items@).len() == range_items(first as int, last as int).len());
        assert forall|j: int| 0 <= j < items@.len() implies values_view(items@)[j] == range_items(
            first as int,
            last as int,
        )[j] by {
            assert(items@[j] == TValue::Number((first + j) as i32));
        }
        assert(values_view(items@) =~= range_items(first as int, last as int));
    }
    TValue::Array(items)
}

impl TValue {
    /// Applies a binary operator to two values.
    pub fn binary_operate(&self, other: &Self, operator: &BinaryOperator) -> (r: Applied<
        TValue,
        InterpreterError,
    >)
        ensures
            r@ == self@.binary(other@, *operator),
    {
        match operator {
            BinaryOperator::Eq => Applied::Value(TValue::Boolean(self.same(other))),
            BinaryOperator::Neq => Applied::Value(TValue::Boolean(!self.same(other))),
            BinaryOperator::Lt | BinaryOperator::Gt | BinaryOperator::Leq | BinaryOperator::Geq => {
                let comparison = self.compare(other);
                let below = matches!(comparison, Comparison::Less);
                let level = matches!(comparison, Comparison::Equal);
                let above = matches!(comparison, Comparison::Greater);
                match comparison {
                    Comparison::Incomparable => Applied::Refused(binary_refusal(operator)),
                    _ => Applied::Value(
                        TValue::Boolean(
                            match operator {
                                BinaryOperator::Lt => below,
                                BinaryOperator::Gt => above,
                                BinaryOperator::Leq => below || level,
                                _ => above || level,
                            },
                        ),
                    ),
                }
            },
            BinaryOperator::And | BinaryOperator::Or | BinaryOperator::Xor => match (self, other) {
                (TValue::Boolean(a), TValue::Boolean(b)) => Applied::Value(
                    TValue::Boolean(
                        match operator {
                            BinaryOperator::And => *a && *b,
                            BinaryOperator::Or => *a || *b,
                            _ => *a != *b,
                        },
                    ),
                ),
                _ => Applied::Refused(binary_refusal(operator)),
            },
            BinaryOperator::Range => match (self, other) {
                (TValue::Number(a), TValue::Number(b)) => Applied::Value(range(*a, *b)),
                _ => Applied::Refused(binary_refusal(operator)),
            },
            _ => match (self, other) {
                (TValue::Number(a), TValue::Number(b)) => {
                    let x: i64 = *a as i64;
                    let y: i64 = *b as i64;
                    match operator {
                        BinaryOperator::Add => number_or_refusal(x + y, operator),
                        BinaryOperator::Sub => number_or_refusal(x - y, operator),
                        BinaryOperator::Mul => {
                            assert(-0x8000_0000 * 0x8000_0000 <= x * y <= 0x8000_0000
                                * 0x8000_0000) by (nonlinear_arith)
                                requires
                                    -0x8000_0000 <= x <= 0x8000_0000,
                                    -0x8000_0000 <= y <= 0x8000_0000,
                            ;
                            number_or_refusal(x * y, operator)
                        },
                        BinaryOperator::IDiv => if y == 0 {
                            Applied::Refused(binary_refusal(operator))
                        } else {
                            number_or_refusal(divide(x, y).0, operator)
                        },
                        BinaryOperator::Mod => if y == 0 {
                            Applied::Refused(binary_refusal(operator))
                        } else {
                            number_or_refusal(divide(x, y).1, operator)
                        },
                        BinaryOperator::Pow => if *b >= 0 {
                            match integer_power(*a, *b) {
                                Some(p) => Applied::Value(TValue::Number(p)),
                                None => Applied::Refused(binary_refusal(operator)),
                            }
                        } else {
                            Applied::Deferred
                        },
                        _ => Applied::Deferred,
                    }
                },
                (TValue::Number(_), TValue::Real(_)) => Applied::Deferred,
                (TValue::Real(_), TValue::Number(_)) => Applied::Deferred,
                (TValue::Real(_), TValue::Real(_)) => Applied::Deferred,
                _ => Applied::Refused(binary_refusal(operator)),
            },
        }
    }

    /// Applies a unary operator to a value.
    pub fn unary_operate(&self, operator: &UnaryOperator) -> (r: Result<TValue, InterpreterError>)
        ensures
            match r {
                Ok(value) => self@.unary(*operator) == Ok::<Value, Failure>(value@),
                Err(error) => self@.unary(*operator) == Err::<Value, Failure>(error@),
            },
    {
        match (operator, self) {
            (UnaryOperator::Not, TValue::Boolean(b)) => Ok(TValue::Boolean(!*b)),
            (UnaryOperator::Add, TValue::Number(n)) => Ok(TValue::Number(*n)),
            (UnaryOperator::Add, TValue::Real(bits)) => Ok(TValue::Real(*bits)),
            (UnaryOperator::Sub, TValue::Number(n)) => if *n == i32::MIN {
                Err(unary_refusal(operator))
            } else {
                Ok(TValue::Number(-*n))
            },
            (UnaryOperator::Sub, TValue::Real(bits)) => Ok(
                TValue::Real(
                    if *bits >= SIGN_BIT {
                        *bits - SIGN_BIT
                    } else {
                        *bits + SIGN_BIT
                    },
                ),
            ),
            _ => Err(unary_refusal(operator)),
        }
    }
}

} // verus!
