//! The values of the language: what they are, when two are equal, and their text.
use crate::ast::{
    clone_parameters, equal_parameters, parameters_view, Parameter, ParameterView, Term, TermView,
};
use crate::bignum::{decimal, duplicate, int_of, render, same};
use num_bigint::BigInt;
use vstd::prelude::*;

verus! {

/// A function value: its parameters, its body, and the scope it was made in.
/// `context` is the handle of that scope in the `Context` the closure belongs to,
/// so the closure sees every binding the scope receives later.
#[derive(Debug, PartialEq)]
pub struct Closure {
    pub body: Term,
    pub args: Vec<Parameter>,
    pub context: usize,
}

/// What evaluating a term gives.
#[derive(Debug, PartialEq)]
pub enum Output {
    Bool(bool),
    Int(BigInt),
    Str(String),
    Tuple((Box<Output>, Box<Output>)),
    Closure(Closure),
    Void,
}

/// A `Closure` as plain values.
pub struct ClosureView {
    pub body: TermView,
    pub args: Seq<ParameterView>,
    pub context: nat,
}

/// An `Output` as a mathematical value.
pub enum Value {
    Bool(bool),
    Int(int),
    Str(Seq<char>),
    Tuple(Box<Value>, Box<Value>),
    Closure(ClosureView),
    Void,
}

impl View for Closure {
    type V = ClosureView;

    open spec fn view(&self) -> ClosureView {
        ClosureView {
            body: self.body@,
            args: parameters_view(self.args@),
            context: self.context as nat,
        }
    }
}

/// The view of one output.
pub open spec fn output_view(output: Output) -> Value
    decreases output,
{
    match output {
        Output::Bool(b) => Value::Bool(b),
        Output::Int(n) => Value::Int(int_of(n)),
        Output::Str(s) => Value::Str(s@),
        Output::Tuple(pair) => Value::Tuple(
            Box::new(output_view(*pair.0)),
            Box::new(output_view(*pair.1)),
        ),
        Output::Closure(c) => Value::Closure(c@),
        Output::Void => Value::Void,
    }
}

impl View for Output {
    type V = Value;

    open spec fn view(&self) -> Value {
        output_view(*self)
    }
}

/// The text that stands for a value: `true` or `false`, the decimal form of an
/// integer, a string as it is, a pair in brackets with a comma, a fixed word
/// for a closure, and nothing for the void value.
pub open spec fn display(value: Value) -> Seq<char>
    decreases value,
{
    match value {
        Value::Bool(b) => if b {
            "true"@
        } else {
            "false"@
        },
        Value::Int(n) => decimal(n),
        Value::Str(s) => s,
        Value::Tuple(first, second) => "("@ + display(*first) + ", "@ + display(*second) + ")"@,
        Value::Closure(_) => "<#closure>"@,
        Value::Void => Seq::empty(),
    }
}

/// Whether every closure inside a value names a scope below `bound`.
pub open spec fn handles_below(value: Value, bound: nat) -> bool
    decreases value,
{
    match value {
        Value::Tuple(first, second) => handles_below(*first, bound) && handles_below(
            *second,
            bound,
        ),
        Value::Closure(c) => c.context < bound,
        _ => true,
    }
}

/// A value whose closures name scopes below one bound names them below every
/// larger bound too.
pub proof fn lemma_handles_below_grows(value: Value, bound: nat, larger: nat)
    requires
        handles_below(value, bound),
        bound <= larger,
    ensures
        handles_below(value, larger),
    decreases value,
{
    match value {
        Value::Tuple(first, second) => {
            lemma_handles_below_grows(*first, bound, larger);
            lemma_handles_below_grows(*second, bound, larger);
        },
        _ => {},
    }
}

impl Clone for Closure {
    fn clone(&self) -> (r: Self)
        ensures
            r@ == self@,
    {
        Closure {
            body: self.body.clone(),
            args: clone_parameters(&self.args),
            context: self.context,
        }
    }
}

impl Clone for Output {
    fn clone(&self) -> (r: Self)
        ensures
            r@ == self@,
        decreases self,
    {
        match self {
            Output::Bool(b) => Output::Bool(*b),
            Output::Int(n) => Output::Int(duplicate(n)),
            Output::Str(s) => Output::Str(s.clone()),
            Output::Tuple(pair) => Output::Tuple(
                (Box::new((*pair.0).clone()), Box::new((*pair.1).clone())),
            ),
            Output::Closure(c) => Output::Closure(c.clone()),
            Output::Void => Output::Void,
        }
    }
}

impl Closure {
    /// Whether two closures have the same parameters and body and were made in
    /// the same scope.
    pub fn equals(&self, other: &Closure) -> (r: bool)
        ensures
            r == (self@ == other@),
    {
        self.body.equals(&other.body) && equal_parameters(&self.args, &other.args) && self.context
            == other.context
    }
}

impl Output {
    /// Structural equality: the same kind of value with equal parts. Values of
    /// different kinds are never equal.
    pub fn equals(&self, other: &Output) -> (r: bool)
        ensures
            r == (self@ == other@),
        decreases self,
    {
        match (self, other) {
            (Output::Bool(a), Output::Bool(b)) => *a == *b,
            (Output::Int(a), Output::Int(b)) => same(a, b),
            (Output::Str(a), Output::Str(b)) => *a == *b,
            (Output::Tuple(a), Output::Tuple(b)) => a.0.equals(&b.0) && a.1.equals(&b.1),
            (Output::Closure(a), Output::Closure(b)) => a.equals(b),
            (Output::Void, Output::Void) => true,
            _ => false,
        }
    }

    /// The text that stands for this value.
    pub fn to_string(&self) -> (r: String)
        ensures
            r@ == display(self@),
        decreases self,
    {
        match self {
            Output::Bool(b) => if *b {
                "true".to_owned()
            } else {
                "false".to_owned()
            },
            Output::Int(n) => render(n),
            Output::Str(s) => s.clone(),
            Output::Tuple(pair) => {
                let first = pair.0.to_string();
                let second = pair.1.to_string();
                let mut text = "(".to_owned();
                text.append(first.as_str());
                text.append(", ");
                text.append(second.as_str());
                text.append(")");
                text
            },
            Output::Closure(_) => "<#closure>".to_owned(),
            Output::Void => String::new(),
        }
    }
}

} // verus!
