//! Unbounded integers: `num_bigint::BigInt`, seen by the proofs as the mathematical
//! integer it holds. The functions of this file are believed, not proved: each
//! states what the `num-bigint` operation that it calls computes.
use num_bigint::BigInt;
use vstd::prelude::*;

verus! {

/// `num_bigint::BigInt`, made known so that it can stand in signatures and
/// fields. What is inside a value is seen through `int_of` alone.
#[verifier::external_type_specification]
#[verifier::external_body]
pub struct ExBigInt(num_bigint::BigInt);

/// The mathematical integer that a `BigInt` holds.
pub uninterp spec fn int_of(n: BigInt) -> int;

/// Division that rounds towards zero, as machine integers and `BigInt` divide.
pub open spec fn trunc_div(a: int, b: int) -> int
    recommends
        b != 0,
{
    if a >= 0 && b > 0 {
        a / b
    } else if a >= 0 {
        -(a / (-b))
    } else if b > 0 {
        -((-a) / b)
    } else {
        (-a) / (-b)
    }
}

/// The remainder that goes with `trunc_div`: it has the sign of the dividend.
pub open spec fn trunc_rem(a: int, b: int) -> int
    recommends
        b != 0,
{
    a - b * trunc_div(a, b)
}

/// The character of one decimal digit.
pub open spec fn digit_char(d: int) -> char
    recommends
        0 <= d < 10,
{
    if d == 0 {
        '0'
    } else if d == 1 {
        '1'
    } else if d == 2 {
        '2'
    } else if d == 3 {
        '3'
    } else if d == 4 {
        '4'
    } else if d == 5 {
        '5'
    } else if d == 6 {
        '6'
    } else if d == 7 {
        '7'
    } else if d == 8 {
        '8'
    } else {
        '9'
    }
}

/// The decimal digits of a natural number, most significant first, without
/// leading zeros; `0` is the single digit `0`.
pub open spec fn digits(n: nat) -> Seq<char>
    decreases n,
{
    if n < 10 {
        seq![digit_char(n as int)]
    } else {
        digits(n / 10).push(digit_char((n % 10) as int))
    }
}

/// The decimal form of an integer: a minus sign for a negative one, then its digits.
pub open spec fn decimal(n: int) -> Seq<char> {
    if n < 0 {
        seq!['-'] + digits((-n) as nat)
    } else {
        digits(n as nat)
    }
}

/// `BigInt::from` on an `i32`: the result holds the same integer.
#[verifier::external_body]
pub(crate) fn from_i32(x: i32) -> (r: BigInt)
    ensures
        int_of(r) == x,
{
    BigInt::from(x)
}

/// `Clone::clone` of `BigInt`: the copy holds the same integer.
#[verifier::external_body]
pub(crate) fn duplicate(a: &BigInt) -> (r: BigInt)
    ensures
        int_of(r) == int_of(*a),
{
    a.clone()
}

/// `&a + &b` of `BigInt` (`Add::add`): the result holds the sum.
#[verifier::external_body]
pub(crate) fn plus(a: &BigInt, b: &BigInt) -> (r: BigInt)
    ensures
        int_of(r) == int_of(*a) + int_of(*b),
{
    a + b
}

/// `&a - &b` of `BigInt` (`Sub::sub`): the result holds the difference.
#[verifier::external_body]
pub(crate) fn minus(a: &BigInt, b: &BigInt) -> (r: BigInt)
    ensures
        int_of(r) == int_of(*a) - int_of(*b),
{
    a - b
}

/// `&a * &b` of `BigInt` (`Mul::mul`): the result holds the product.
#[verifier::external_body]
pub(crate) fn times(a: &BigInt, b: &BigInt) -> (r: BigInt)
    ensures
        int_of(r) == int_of(*a) * int_of(*b),
{
    a * b
}

/// `&a / &b` of `BigInt` (`Div::div`): the quotient, rounded towards zero.
/// The operation panics on a zero divisor, which is left out here.
#[verifier::external_body]
pub(crate) fn quotient(a: &BigInt, b: &BigInt) -> (r: BigInt)
    requires
        int_of(*b) != 0,
    ensures
        int_of(r) == trunc_div(int_of(*a), int_of(*b)),
{
    a / b
}

/// `&a % &b` of `BigInt` (`Rem::rem`): the remainder of the division that rounds
/// towards zero. The operation panics on a zero divisor, which is left out here.
#[verifier::external_body]
pub(crate) fn remainder(a: &BigInt, b: &BigInt) -> (r: BigInt)
    requires
        int_of(*b) != 0,
    ensures
        int_of(r) == trunc_rem(int_of(*a), int_of(*b)),
{
    a % b
}

/// `a < b` of `BigInt` (`PartialOrd::lt`): the order of the integers.
#[verifier::external_body]
pub(crate) fn less(a: &BigInt, b: &BigInt) -> (r: bool)
    ensures
        r == (int_of(*a) < int_of(*b)),
{
    a < b
}

/// `a == b` of `BigInt` (`PartialEq::eq`): whether the two hold the same integer.
#[verifier::external_body]
pub(crate) fn same(a: &BigInt, b: &BigInt) -> (r: bool)
    ensures
        r == (int_of(*a) == int_of(*b)),
{
    a == b
}

/// `ToString::to_string` of `BigInt`, which goes by its `Display`: the decimal form.
#[verifier::external_body]
pub(crate) fn render(a: &BigInt) -> (r: String)
    ensures
        r@ == decimal(int_of(*a)),
{
    a.to_string()
}

} // verus!
