//! Fibonacci numbers by two methods, and the proof that both give the sequence.
use crate::bignum::{
    duplicate, from_i32, int_of, less, minus, plus, quotient, remainder, same, times,
};
use num_bigint::BigInt;
use vstd::arithmetic::mul::{
    lemma_mul_is_associative, lemma_mul_is_distributive_add,
    lemma_mul_is_distributive_add_other_way,
};
use vstd::prelude::*;

verus! {

/// The Fibonacci sequence: 0, 1, 1, 2, 3, 5, ... It is 0 below the first index.
pub open spec fn fib(n: int) -> int
    decreases n,
{
    if n <= 0 {
        0
    } else if n == 1 {
        1
    } else {
        fib(n - 1) + fib(n - 2)
    }
}

/// The pair that the iterative method holds after `n` steps: it starts at
/// `(0, 1)`, and one step takes `(a, b)` to `(b, a + b)`.
pub open spec fn fib_pair(n: nat) -> (int, int)
    decreases n,
{
    if n == 0 {
        (0, 1)
    } else {
        let p = fib_pair((n - 1) as nat);
        (p.1, p.0 + p.1)
    }
}

/// What the iterative method gives for `n`: the first of the pair after `n`
/// steps, and after none where `n` is negative.
pub open spec fn fib_iter_spec(n: int) -> int {
    if n <= 0 {
        0
    } else {
        fib_pair(n as nat).0
    }
}

/// A two-by-two matrix of integers, row by row.
pub struct Matrix {
    pub m00: int,
    pub m01: int,
    pub m10: int,
    pub m11: int,
}

/// The matrix whose powers hold the Fibonacci numbers.
pub open spec fn fib_base() -> Matrix {
    Matrix { m00: 1, m01: 1, m10: 1, m11: 0 }
}

/// The product of two matrices.
pub open spec fn matrix_product(a: Matrix, b: Matrix) -> Matrix {
    Matrix {
        m00: a.m00 * b.m00 + a.m01 * b.m10,
        m01: a.m00 * b.m01 + a.m01 * b.m11,
        m10: a.m10 * b.m00 + a.m11 * b.m10,
        m11: a.m10 * b.m01 + a.m11 * b.m11,
    }
}

/// The power of a matrix by repeated squaring: the first power is the matrix, an
/// even power is the square of the half power, an odd one the matrix times the
/// power below. Only powers from the first on are meant.
pub open spec fn matrix_power(m: Matrix, k: int) -> Matrix
    decreases k,
{
    if k <= 1 {
        m
    } else if k % 2 == 0 {
        let half = matrix_power(m, k / 2);
        matrix_product(half, half)
    } else {
        matrix_product(m, matrix_power(m, k - 1))
    }
}

/// What the matrix method gives for `n`: the lower left entry of the `n`-th power.
pub open spec fn fib_matrix_spec(n: int) -> int {
    matrix_power(fib_base(), n).m10
}

/// The matrix of the Fibonacci numbers around `k`.
pub open spec fn fib_matrix_at(k: int) -> Matrix {
    Matrix { m00: fib(k + 1), m01: fib(k), m10: fib(k), m11: fib(k - 1) }
}

/// The power of the base matrix by repeated multiplication from the left.
pub open spec fn base_power(k: nat) -> Matrix
    decreases k,
{
    if k <= 1 {
        fib_base()
    } else {
        matrix_product(fib_base(), base_power((k - 1) as nat))
    }
}

/// After `n` steps the iterative pair holds the `n`-th Fibonacci number and the next.
pub proof fn lemma_fib_pair(n: nat)
    ensures
        fib_pair(n) == (fib(n as int), fib(n as int + 1)),
    decreases n,
{
    if n > 0 {
        lemma_fib_pair((n - 1) as nat);
    }
}

/// One entry of a product of three matrices, bracketed either way.
proof fn lemma_entry_assoc(
    a0: int,
    a1: int,
    b00: int,
    b01: int,
    b10: int,
    b11: int,
    c0: int,
    c1: int,
)
    ensures
        (a0 * b00 + a1 * b10) * c0 + (a0 * b01 + a1 * b11) * c1 == a0 * (b00 * c0 + b01 * c1) + a1
            * (b10 * c0 + b11 * c1),
{
    lemma_mul_is_distributive_add_other_way(c0, a0 * b00, a1 * b10);
    lemma_mul_is_distributive_add_other_way(c1, a0 * b01, a1 * b11);
    lemma_mul_is_distributive_add(a0, b00 * c0, b01 * c1);
    lemma_mul_is_distributive_add(a1, b10 * c0, b11 * c1);
    lemma_mul_is_associative(a0, b00, c0);
    lemma_mul_is_associative(a0, b01, c1);
    lemma_mul_is_associative(a1, b10, c0);
    lemma_mul_is_associative(a1, b11, c1);
}

/// Matrix multiplication is associative.
pub proof fn lemma_matrix_product_assoc(a: Matrix, b: Matrix, c: Matrix)
    ensures
        matrix_product(matrix_product(a, b), c) == matrix_product(a, matrix_product(b, c)),
{
    lemma_entry_assoc(a.m00, a.m01, b.m00, b.m01, b.m10, b.m11, c.m00, c.m10);
    lemma_entry_assoc(a.m00, a.m01, b.m00, b.m01, b.m10, b.m11, c.m01, c.m11);
    lemma_entry_assoc(a.m10, a.m11, b.m00, b.m01, b.m10, b.m11, c.m00, c.m10);
    lemma_entry_assoc(a.m10, a.m11, b.m00, b.m01, b.m10, b.m11, c.m01, c.m11);
}

/// Powers of the base matrix add up: the power `i + j` is the product of the
/// powers `i` and `j`.
pub proof fn lemma_base_power_add(i: nat, j: nat)
    requires
        i >= 1,
        j >= 1,
    ensures
        base_power(i + j) == matrix_product(base_power(i), base_power(j)),
    decreases i,
{
    if i > 1 {
        lemma_base_power_add((i - 1) as nat, j);
        lemma_matrix_product_assoc(fib_base(), base_power((i - 1) as nat), base_power(j));
    }
}

/// The `k`-th power of the base matrix holds the Fibonacci numbers around `k`.
pub proof fn lemma_base_power_fib(k: nat)
    requires
        k >= 1,
    ensures
        base_power(k) == fib_matrix_at(k as int),
    decreases k,
{
    if k > 1 {
        lemma_base_power_fib((k - 1) as nat);
        let p = base_power((k - 1) as nat);
        assert(1 * p.m00 == p.m00 && 1 * p.m01 == p.m01 && 1 * p.m10 == p.m10 && 1 * p.m11
            == p.m11 && 0 * p.m10 == 0 && 0 * p.m11 == 0);
    } else {
        assert(fib(2) == fib(1) + fib(0));
    }
}

/// Repeated squaring computes the same power as repeated multiplication.
pub proof fn lemma_matrix_power_base(k: int)
    requires
        k >= 1,
    ensures
        matrix_power(fib_base(), k) == base_power(k as nat),
    decreases k,
{
    if k > 1 {
        if k % 2 == 0 {
            lemma_matrix_power_base(k / 2);
            lemma_base_power_add((k / 2) as nat, (k / 2) as nat);
        } else {
            lemma_matrix_power_base(k - 1);
        }
    }
}

/// The iterative method and the matrix method give the same number, the `n`-th
/// Fibonacci number, for every `n` from 1 on; the iterative method gives it from
/// 0 on, and 0 below.
pub proof fn lemma_methods_agree(n: int)
    ensures
        fib_iter_spec(n) == fib(n),
        n >= 1 ==> fib_matrix_spec(n) == fib(n),
        n >= 1 ==> fib_iter_spec(n) == fib_matrix_spec(n),
{
    if n >= 1 {
        lemma_fib_pair(n as nat);
        lemma_matrix_power_base(n);
        lemma_base_power_fib(n as nat);
    }
}

/// A two-by-two matrix of unbounded integers, row by row.
struct Matrix2x2 {
    x00: BigInt,
    x01: BigInt,
    x10: BigInt,
    x11: BigInt,
}

impl Matrix2x2 {
    /// The matrix of integers that this matrix holds.
    spec fn view(&self) -> Matrix {
        Matrix {
            m00: int_of(self.x00),
            m01: int_of(self.x01),
            m10: int_of(self.x10),
            m11: int_of(self.x11),
        }
    }
}

/// The product of two matrices.
#[allow(non_snake_case)]
fn __matrix__x(a: &Matrix2x2, b: &Matrix2x2) -> (r: Matrix2x2)
    ensures
        r@ == matrix_product(a@, b@),
{
    let x00 = plus(&times(&a.x00, &b.x00), &times(&a.x01, &b.x10));
    let x01 = plus(&times(&a.x00, &b.x01), &times(&a.x01, &b.x11));
    let x10 = plus(&times(&a.x10, &b.x00), &times(&a.x11, &b.x10));
    let x11 = plus(&times(&a.x10, &b.x01), &times(&a.x11, &b.x11));
    Matrix2x2 { x00, x01, x10, x11 }
}

/// The `nth` power of a matrix, by repeated squaring.
fn __pow(matrix: &Matrix2x2, nth: BigInt) -> (r: Matrix2x2)
    requires
        int_of(nth) >= 1,
    ensures
        r@ == matrix_power(matrix@, int_of(nth)),
    decreases int_of(nth),
{
    let one = from_i32(1);
    let two = from_i32(2);
    let zero = from_i32(0);
    if same(&nth, &one) {
        Matrix2x2 {
            x00: duplicate(&matrix.x00),
            x01: duplicate(&matrix.x01),
            x10: duplicate(&matrix.x10),
            x11: duplicate(&matrix.x11),
        }
    } else if same(&remainder(&nth, &two), &zero) {
        let half_pow = __pow(matrix, quotient(&nth, &two));
        __matrix__x(&half_pow, &half_pow)
    } else {
        let rest = __pow(matrix, minus(&nth, &one));
        __matrix__x(matrix, &rest)
    }
}

/// The `nth` Fibonacci number by the matrix method, for `nth` from 1 on.
pub fn __fib_matrix(nth: BigInt) -> (r: BigInt)
    requires
        int_of(nth) >= 1,
    ensures
        int_of(r) == fib_matrix_spec(int_of(nth)),
        int_of(r) == fib(int_of(nth)),
{
    let init = Matrix2x2 {
        x00: from_i32(1),
        x01: from_i32(1),
        x10: from_i32(1),
        x11: from_i32(0),
    };
    let res = __pow(&init, nth);
    proof {
        lemma_methods_agree(int_of(nth));
    }
    res.x10
}

/// The `nth` Fibonacci number by the iterative method; 0 where `nth` is negative.
pub fn __fib_iter(nth: BigInt) -> (r: BigInt)
    ensures
        int_of(r) == fib_iter_spec(int_of(nth)),
        int_of(r) == fib(int_of(nth)),
{
    let one = from_i32(1);
    let mut a: BigInt = from_i32(0);
    let mut b: BigInt = from_i32(1);
    let mut i: BigInt = from_i32(0);
    while less(&i, &nth)
        invariant
            int_of(one) == 1,
            0 <= int_of(i),
            int_of(i) <= int_of(nth) || int_of(i) == 0,
            (int_of(a), int_of(b)) == fib_pair(int_of(i) as nat),
        decreases int_of(nth) - int_of(i),
    {
        let next = plus(&a, &b);
        a = b;
        b = next;
        i = plus(&i, &one);
    }
    proof {
        lemma_methods_agree(int_of(nth));
    }
    a
}

/// The number of steps from which the matrix method is used.
pub const MATRIX_THRESHOLD: i32 = 1000;

/// The `nth` Fibonacci number: by the iterative method below the threshold, by
/// the matrix method from it on. Both give the same number, so the threshold
/// cannot be seen in the result.
pub fn fast_fib(nth: BigInt) -> (r: BigInt)
    ensures
        int_of(r) == fib(int_of(nth)),
        int_of(nth) < MATRIX_THRESHOLD ==> int_of(r) == fib_iter_spec(int_of(nth)),
        int_of(nth) >= MATRIX_THRESHOLD ==> int_of(r) == fib_matrix_spec(int_of(nth)),
{
    let threshold = from_i32(MATRIX_THRESHOLD);
    if less(&nth, &threshold) {
        __fib_iter(nth)
    } else {
        __fib_matrix(nth)
    }
}

} // verus!
