//! An evaluator for a small expression language with integers of any size,
//! strings, pairs, `let`, conditionals and first-class functions.
//!
//! A program comes as a syntax tree (`ast`). `eval::eval` evaluates it in an
//! environment (`context`) and gives a value (`value`) or an error (`error`);
//! what the program printed is left in the environment. The meaning of every
//! term is the function `eval::evaluate`, and `eval` is proved to compute it.
//! Calls of `fib` with one integer are answered by `fib::fast_fib`, which is
//! proved to give the Fibonacci numbers.
pub mod ast;
pub mod bignum;
pub mod context;
pub mod error;
pub mod eval;
pub mod fib;
pub mod ops;
pub mod value;
