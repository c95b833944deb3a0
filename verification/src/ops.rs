//! The binary operators on values.
use crate::ast::{BinaryOp, Location, LocationView};
use crate::bignum::{
    decimal, from_i32, less, minus, plus, quotient, remainder, render, times, trunc_div,
    trunc_rem,
};
use crate::error::{Error, ErrorView};
use crate::value::{handles_below, Output, Value};
use vstd::prelude::*;
use vstd::utf8::encode_utf8;

verus! {

/// The order of byte strings: by the first byte in which they differ, and a
/// proper prefix comes before what it is a prefix of.
pub open spec fn bytes_less(a: Seq<u8>, b: Seq<u8>) -> bool
    decreases a.len(),
{
    if b.len() == 0 {
        false
    } else if a.len() == 0 {
        true
    } else if a[0] != b[0] {
        a[0] < b[0]
    } else {
        bytes_less(a.drop_first(), b.drop_first())
    }
}

/// The order of strings: that of their bytes in UTF-8.
pub open spec fn text_less(a: Seq<char>, b: Seq<char>) -> bool {
    bytes_less(encode_utf8(a), encode_utf8(b))
}

/// What a comparison operator says of two operands of which it is known whether
/// the left is below the right, and the right below the left.
pub open spec fn ordering_result(op: BinaryOp, below: bool, above: bool) -> bool {
    match op {
        BinaryOp::Lt => below,
        BinaryOp::Gt => above,
        BinaryOp::Lte => !above,
        _ => !below,
    }
}

/// The message of a type mismatch under an operator. `Eq`, `Neq`, `And` and `Or`
/// take operands of every kind and have none.
pub open spec fn mismatch_message(op: BinaryOp) -> Seq<char> {
    match op {
        BinaryOp::Add => "Cannot perform add operation"@,
        BinaryOp::Sub => "Cannot perform sub operation"@,
        BinaryOp::Mul => "Cannot perform mul operation"@,
        BinaryOp::Div => "Cannot perform div operation"@,
        BinaryOp::Rem => "Cannot perform rem operation"@,
        BinaryOp::Lt => "Cannot perform lt operation"@,
        BinaryOp::Gt => "Cannot perform gt operation"@,
        BinaryOp::Lte => "Cannot perform lte operation"@,
        BinaryOp::Gte => "Cannot perform gte operation"@,
        _ => Seq::empty(),
    }
}

/// What a binary operator gives for two operands that have both been evaluated.
///
/// - `Add` sums two integers and joins two strings, or a string and the decimal
///   form of an integer, in the order given.
/// - `Sub` and `Mul` take two integers.
/// - `Div` and `Rem` take two integers and a divisor above zero; a divisor of
///   zero or below is an arithmetic error. They round towards zero.
/// - `Eq` and `Neq` compare any two values by structure.
/// - `Lt`, `Gt`, `Lte`, `Gte` order two integers or two strings.
/// - `And` gives `false` where the left operand is `false`, else the right
///   operand as it is; `Or` gives `true` where the left is `true`, else the right.
///
/// Every other combination is a type mismatch, reported at the operator's place.
pub open spec fn binary_result(
    op: BinaryOp,
    lhs: Value,
    rhs: Value,
    location: LocationView,
) -> Result<Value, ErrorView> {
    let mismatch = Err(Error::at(mismatch_message(op), location));
    match op {
        BinaryOp::Add => match (lhs, rhs) {
            (Value::Int(a), Value::Int(b)) => Ok(Value::Int(a + b)),
            (Value::Str(a), Value::Str(b)) => Ok(Value::Str(a + b)),
            (Value::Str(a), Value::Int(b)) => Ok(Value::Str(a + decimal(b))),
            (Value::Int(a), Value::Str(b)) => Ok(Value::Str(decimal(a) + b)),
            _ => mismatch,
        },
        BinaryOp::Sub => match (lhs, rhs) {
            (Value::Int(a), Value::Int(b)) => Ok(Value::Int(a - b)),
            _ => mismatch,
        },
        BinaryOp::Mul => match (lhs, rhs) {
            (Value::Int(a), Value::Int(b)) => Ok(Value::Int(a * b)),
            _ => mismatch,
        },
        BinaryOp::Div => match (lhs, rhs) {
            (Value::Int(a), Value::Int(b)) => if b > 0 {
                Ok(Value::Int(trunc_div(a, b)))
            } else {
                Err(Error::at("Arithmetic error, dividing by zero"@, location))
            },
            _ => mismatch,
        },
        BinaryOp::Rem => match (lhs, rhs) {
            (Value::Int(a), Value::Int(b)) => if b > 0 {
                Ok(Value::Int(trunc_rem(a, b)))
            } else {
                Err(Error::at("Arithmetic error, dividing by zero"@, location))
            },
            _ => mismatch,
        },
        BinaryOp::Eq => Ok(Value::Bool(lhs == rhs)),
        BinaryOp::Neq => Ok(Value::Bool(lhs != rhs)),
        BinaryOp::Lt | BinaryOp::Gt | BinaryOp::Lte | BinaryOp::Gte => match (lhs, rhs) {
            (Value::Int(a), Value::Int(b)) => Ok(Value::Bool(ordering_result(op, a < b, b < a))),
            (Value::Str(a), Value::Str(b)) => Ok(
                Value::Bool(ordering_result(op, text_less(a, b), text_less(b, a))),
            ),
            _ => mismatch,
        },
        BinaryOp::And => if lhs == Value::Bool(false) {
            Ok(Value::Bool(false))
        } else {
            Ok(rhs)
        },
        BinaryOp::Or => if lhs == Value::Bool(true) {
            Ok(Value::Bool(true))
        } else {
            Ok(rhs)
        },
    }
}

/// A result of evaluation as mathematical values.
pub open spec fn result_view(r: Result<Output, Error>) -> Result<Value, ErrorView> {
    match r {
        Ok(value) => Ok(value@),
        Err(error) => Err(error@),
    }
}

/// A binary operator makes no closure: those in its result were in its operands.
pub proof fn lemma_binary_result_handles(
    op: BinaryOp,
    lhs: Value,
    rhs: Value,
    location: LocationView,
    bound: nat,
)
    requires
        handles_below(lhs, bound),
        handles_below(rhs, bound),
    ensures
        binary_result(op, lhs, rhs, location) matches Ok(value) ==> handles_below(value, bound),
{
}

/// Whether the string `a` comes before the string `b`.
pub fn string_less(a: &String, b: &String) -> (r: bool)
    ensures
        r == text_less(a@, b@),
{
    let x = a.as_str().as_bytes();
    let y = b.as_str().as_bytes();
    let mut i: usize = 0;
    assert(x@.skip(0) =~= x@);
    assert(y@.skip(0) =~= y@);
    loop
        invariant
            i <= x.len(),
            i <= y.len(),
            x@ == encode_utf8(a@),
            y@ == encode_utf8(b@),
            bytes_less(x@, y@) == bytes_less(x@.skip(i as int), y@.skip(i as int)),
        decreases x.len() - i,
    {
        if i >= y.len() {
            return false;
        }
        if i >= x.len() {
            return true;
        }
        proof {
            assert(x@.skip(i as int)[0] == x@[i as int]);
            assert(y@.skip(i as int)[0] == y@[i as int]);
            assert(x@.skip(i as int).drop_first() =~= x@.skip(i + 1));
            assert(y@.skip(i as int).drop_first() =~= y@.skip(i + 1));
        }
        if x[i] != y[i] {
            return x[i] < y[i];
        }
        i += 1;
    }
}

/// The error of a type mismatch under `op`, at `location`.
fn mismatch(op: BinaryOp, location: &Location) -> (r: Result<Output, Error>)
    ensures
        result_view(r) == Err::<Value, ErrorView>(Error::at(mismatch_message(op), location@)),
{
    let message = match op {
        BinaryOp::Add => "Cannot perform add operation",
        BinaryOp::Sub => "Cannot perform sub operation",
        BinaryOp::Mul => "Cannot perform mul operation",
        BinaryOp::Div => "Cannot perform div operation",
        BinaryOp::Rem => "Cannot perform rem operation",
        BinaryOp::Lt => "Cannot perform lt operation",
        BinaryOp::Gt => "Cannot perform gt operation",
        BinaryOp::Lte => "Cannot perform lte operation",
        BinaryOp::Gte => "Cannot perform gte operation",
        _ => "",
    };
    proof {
        reveal_strlit("");
    }
    assert(message@ =~= mismatch_message(op));
    Err(Error::new(message, location.clone()))
}

/// What a comparison operator says, from the two strict comparisons.
fn ordering(op: BinaryOp, below: bool, above: bool) -> (r: bool)
    ensures
        r == ordering_result(op, below, above),
{
    match op {
        BinaryOp::Lt => below,
        BinaryOp::Gt => above,
        BinaryOp::Lte => !above,
        _ => !below,
    }
}

/// Applies a binary operator to its two operands, both already evaluated.
pub fn apply_binary(op: BinaryOp, lhs: Output, rhs: Output, location: &Location) -> (r: Result<
    Output,
    Error,
>)
    ensures
        result_view(r) == binary_result(op, lhs@, rhs@, location@),
{
    match op {
        BinaryOp::Add => match (&lhs, &rhs) {
            (Output::Int(a), Output::Int(b)) => Ok(Output::Int(plus(a, b))),
            (Output::Str(a), Output::Str(b)) => {
                let mut text = a.clone();
                text.append(b.as_str());
                Ok(Output::Str(text))
            },
            (Output::Str(a), Output::Int(b)) => {
                let mut text = a.clone();
                text.append(render(b).as_str());
                Ok(Output::Str(text))
            },
            (Output::Int(a), Output::Str(b)) => {
                let mut text = render(a);
                text.append(b.as_str());
                Ok(Output::Str(text))
            },
            _ => mismatch(op, location),
        },
        BinaryOp::Sub => match (&lhs, &rhs) {
            (Output::Int(a), Output::Int(b)) => Ok(Output::Int(minus(a, b))),
            _ => mismatch(op, location),
        },
        BinaryOp::Mul => match (&lhs, &rhs) {
            (Output::Int(a), Output::Int(b)) => Ok(Output::Int(times(a, b))),
            _ => mismatch(op, location),
        },
        BinaryOp::Div => match (&lhs, &rhs) {
            (Output::Int(a), Output::Int(b)) => {
                let zero = from_i32(0);
                if less(&zero, b) {
                    Ok(Output::Int(quotient(a, b)))
                } else {
                    Err(Error::new("Arithmetic error, dividing by zero", location.clone()))
                }
            },
            _ => mismatch(op, location),
        },
        BinaryOp::Rem => match (&lhs, &rhs) {
            (Output::Int(a), Output::Int(b)) => {
                let zero = from_i32(0);
                if less(&zero, b) {
                    Ok(Output::Int(remainder(a, b)))
                } else {
                    Err(Error::new("Arithmetic error, dividing by zero", location.clone()))
                }
            },
            _ => mismatch(op, location),
        },
        BinaryOp::Eq => Ok(Output::Bool(lhs.equals(&rhs))),
        BinaryOp::Neq => Ok(Output::Bool(!lhs.equals(&rhs))),
        BinaryOp::Lt | BinaryOp::Gt | BinaryOp::Lte | BinaryOp::Gte => match (&lhs, &rhs) {
            (Output::Int(a), Output::Int(b)) => Ok(
                Output::Bool(ordering(op, less(a, b), less(b, a))),
            ),
            (Output::Str(a), Output::Str(b)) => Ok(
                Output::Bool(ordering(op, string_less(a, b), string_less(b, a))),
            ),
            _ => mismatch(op, location),
        },
        BinaryOp::And => {
            let dominated = match &lhs {
                Output::Bool(b) => !*b,
                _ => false,
            };
            if dominated {
                Ok(Output::Bool(false))
            } else {
                Ok(rhs)
            }
        },
        BinaryOp::Or => {
            let dominated = match &lhs {
                Output::Bool(b) => *b,
                _ => false,
            };
            if dominated {
                Ok(Output::Bool(true))
            } else {
                Ok(rhs)
            }
        },
    }
}

} // verus!
