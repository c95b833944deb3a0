//! The syntax tree of a program, its view as a mathematical value, and copying
//! and comparing of trees.
use vstd::prelude::*;

verus! {

/// A span of source text: where a node of the syntax tree came from.
#[derive(Debug, PartialEq)]
pub struct Location {
    pub start: usize,
    pub end: usize,
    pub filename: String,
}

/// The binary operators of the language.
#[derive(Debug, Clone, Copy, PartialEq, Eq, Structural)]
pub enum BinaryOp {
    Add,
    Sub,
    Mul,
    Div,
    Rem,
    Eq,
    Neq,
    Lt,
    Gt,
    Lte,
    Gte,
    And,
    Or,
}

/// A binary operator applied to two terms.
#[derive(Debug, PartialEq)]
pub struct Binary {
    pub lhs: Box<Term>,
    pub op: BinaryOp,
    pub rhs: Box<Term>,
    pub location: Location,
}

/// A boolean literal.
#[derive(Debug, PartialEq)]
pub struct Bool {
    pub value: bool,
    pub location: Location,
}

/// A call: the term that gives the function, and the arguments in order.
#[derive(Debug, PartialEq)]
pub struct Call {
    pub callee: Box<Term>,
    pub arguments: Vec<Term>,
    pub location: Location,
}

/// The first part of a pair.
#[derive(Debug, PartialEq)]
pub struct First {
    pub value: Box<Term>,
    pub location: Location,
}

/// A name that stands for the value bound to it.
#[derive(Debug, PartialEq)]
pub struct Var {
    pub text: String,
    pub location: Location,
}

/// A name that is bound: a parameter of a function, or the name of a `Let`.
#[derive(Debug, PartialEq)]
pub struct Parameter {
    pub text: String,
    pub location: Location,
}

/// A function: its parameters in order, and its body.
#[derive(Debug, PartialEq)]
pub struct Function {
    pub parameters: Vec<Parameter>,
    pub value: Box<Term>,
    pub location: Location,
}

/// A conditional: the condition and the two branches.
#[derive(Debug, PartialEq)]
pub struct If {
    pub condition: Box<Term>,
    pub then: Box<Term>,
    pub otherwise: Box<Term>,
    pub location: Location,
}

/// An integer literal.
#[derive(Debug, PartialEq)]
pub struct Int {
    pub value: i32,
    pub location: Location,
}

/// A binding: the name, the term whose value it gets, and the term that follows.
#[derive(Debug, PartialEq)]
pub struct Let {
    pub name: Parameter,
    pub value: Box<Term>,
    pub next: Box<Term>,
    pub location: Location,
}

/// The printing of a value.
#[derive(Debug, PartialEq)]
pub struct Print {
    pub value: Box<Term>,
    pub location: Location,
}

/// The second part of a pair.
#[derive(Debug, PartialEq)]
pub struct Second {
    pub value: Box<Term>,
    pub location: Location,
}

/// A string literal.
#[derive(Debug, PartialEq)]
pub struct Str {
    pub value: String,
    pub location: Location,
}

/// A pair of two terms.
#[derive(Debug, PartialEq)]
pub struct Tuple {
    pub first: Box<Term>,
    pub second: Box<Term>,
    pub location: Location,
}

/// One node of the syntax tree.
#[derive(Debug, PartialEq)]
pub enum Term {
    Binary(Binary),
    Bool(Bool),
    Call(Call),
    First(First),
    Function(Function),
    If(If),
    Int(Int),
    Let(Let),
    Print(Print),
    Second(Second),
    Str(Str),
    Tuple(Tuple),
    Var(Var),
}

/// A parsed program: its name, its top-level expression and its extent.
#[derive(Debug, PartialEq)]
pub struct File {
    pub name: String,
    pub expression: Term,
    pub location: Location,
}

/// A `Location` as plain values.
pub struct LocationView {
    pub start: nat,
    pub end: nat,
    pub filename: Seq<char>,
}

impl View for Location {
    type V = LocationView;

    open spec fn view(&self) -> LocationView {
        LocationView { start: self.start as nat, end: self.end as nat, filename: self.filename@ }
    }
}

/// A `Parameter` as plain values.
pub struct ParameterView {
    pub text: Seq<char>,
    pub location: LocationView,
}

impl View for Parameter {
    type V = ParameterView;

    open spec fn view(&self) -> ParameterView {
        ParameterView { text: self.text@, location: self.location@ }
    }
}

/// The syntax tree as a mathematical value: what the semantics is defined on.
pub enum TermView {
    Binary { lhs: Box<TermView>, op: BinaryOp, rhs: Box<TermView>, location: LocationView },
    Bool { value: bool, location: LocationView },
    Call { callee: Box<TermView>, arguments: Seq<TermView>, location: LocationView },
    First { value: Box<TermView>, location: LocationView },
    Function { parameters: Seq<ParameterView>, value: Box<TermView>, location: LocationView },
    If {
        condition: Box<TermView>,
        consequent: Box<TermView>,
        otherwise: Box<TermView>,
        location: LocationView,
    },
    Int { value: int, location: LocationView },
    Let { name: ParameterView, value: Box<TermView>, next: Box<TermView>, location: LocationView },
    Print { value: Box<TermView>, location: LocationView },
    Second { value: Box<TermView>, location: LocationView },
    Str { value: Seq<char>, location: LocationView },
    Tuple { first: Box<TermView>, second: Box<TermView>, location: LocationView },
    Var { text: Seq<char>, location: LocationView },
}

/// The views of a list of parameters, in order.
pub open spec fn parameters_view(parameters: Seq<Parameter>) -> Seq<ParameterView> {
    Seq::new(parameters.len(), |i: int| parameters[i]@)
}

/// The views of a list of terms, in order.
pub open spec fn terms_view(terms: Seq<Term>) -> Seq<TermView>
    decreases terms,
{
    Seq::new(
        terms.len(),
        |i: int|
            if 0 <= i < terms.len() {
                term_view(terms[i])
            } else {
                arbitrary()
            },
    )
}

/// The view of one term.
pub open spec fn term_view(term: Term) -> TermView
    decreases term,
{
    match term {
        Term::Binary(x) => TermView::Binary {
            lhs: Box::new(term_view(*x.lhs)),
            op: x.op,
            rhs: Box::new(term_view(*x.rhs)),
            location: x.location@,
        },
        Term::Bool(x) => TermView::Bool { value: x.value, location: x.location@ },
        Term::Call(x) => TermView::Call {
            callee: Box::new(term_view(*x.callee)),
            arguments: terms_view(x.arguments@),
            location: x.location@,
        },
        Term::First(x) => TermView::First {
            value: Box::new(term_view(*x.value)),
            location: x.location@,
        },
        Term::Function(x) => TermView::Function {
            parameters: parameters_view(x.parameters@),
            value: Box::new(term_view(*x.value)),
            location: x.location@,
        },
        Term::If(If { condition, then: consequent, otherwise, location }) => TermView::If {
            condition: Box::new(term_view(*condition)),
            consequent: Box::new(term_view(*consequent)),
            otherwise: Box::new(term_view(*otherwise)),
            location: location@,
        },
        Term::Int(x) => TermView::Int { value: x.value as int, location: x.location@ },
        Term::Let(x) => TermView::Let {
            name: x.name@,
            value: Box::new(term_view(*x.value)),
            next: Box::new(term_view(*x.next)),
            location: x.location@,
        },
        Term::Print(x) => TermView::Print {
            value: Box::new(term_view(*x.value)),
            location: x.location@,
        },
        Term::Second(x) => TermView::Second {
            value: Box::new(term_view(*x.value)),
            location: x.location@,
        },
        Term::Str(x) => TermView::Str { value: x.value@, location: x.location@ },
        Term::Tuple(x) => TermView::Tuple {
            first: Box::new(term_view(*x.first)),
            second: Box::new(term_view(*x.second)),
            location: x.location@,
        },
        Term::Var(x) => TermView::Var { text: x.text@, location: x.location@ },
    }
}

impl View for Term {
    type V = TermView;

    open spec fn view(&self) -> TermView {
        term_view(*self)
    }
}

impl Clone for Location {
    fn clone(&self) -> (r: Self)
        ensures
            r@ == self@,
    {
        Location { start: self.start, end: self.end, filename: self.filename.clone() }
    }
}

impl Clone for Parameter {
    fn clone(&self) -> (r: Self)
        ensures
            r@ == self@,
    {
        Parameter { text: self.text.clone(), location: self.location.clone() }
    }
}

/// A copy of a list of parameters.
pub fn clone_parameters(parameters: &Vec<Parameter>) -> (r: Vec<Parameter>)
    ensures
        parameters_view(r@) == parameters_view(parameters@),
{
    let mut r: Vec<Parameter> = Vec::new();
    let mut i: usize = 0;
    while i < parameters.len()
        invariant
            i <= parameters.len(),
            r.len() == i,
            forall|j: int| 0 <= j < i ==> r[j]@ == parameters[j]@,
        decreases parameters.len() - i,
    {
        r.push(parameters[i].clone());
        i += 1;
    }
    assert(parameters_view(r@) =~= parameters_view(parameters@));
    r
}

/// A copy of a list of terms.
pub fn clone_terms(terms: &Vec<Term>) -> (r: Vec<Term>)
    ensures
        terms_view(r@) == terms_view(terms@),
    decreases terms,
{
    let mut r: Vec<Term> = Vec::new();
    let mut i: usize = 0;
    while i < terms.len()
        invariant
            i <= terms.len(),
            r.len() == i,
            forall|j: int| 0 <= j < i ==> r[j]@ == terms[j]@,
        decreases terms.len() - i,
    {
        r.push(terms[i].clone());
        i += 1;
    }
    assert(terms_view(r@) =~= terms_view(terms@));
    r
}

impl Clone for Term {
    fn clone(&self) -> (r: Self)
        ensures
            r@ == self@,
        decreases self,
    {
        match self {
            Term::Binary(x) => Term::Binary(
                Binary {
                    lhs: Box::new((*x.lhs).clone()),
                    op: x.op,
                    rhs: Box::new((*x.rhs).clone()),
                    location: x.location.clone(),
                },
            ),
            Term::Bool(x) => Term::Bool(Bool { value: x.value, location: x.location.clone() }),
            Term::Call(x) => Term::Call(
                Call {
                    callee: Box::new((*x.callee).clone()),
                    arguments: clone_terms(&x.arguments),
                    location: x.location.clone(),
                },
            ),
            Term::First(x) => Term::First(
                First { value: Box::new((*x.value).clone()), location: x.location.clone() },
            ),
            Term::Function(x) => Term::Function(
                Function {
                    parameters: clone_parameters(&x.parameters),
                    value: Box::new((*x.value).clone()),
                    location: x.location.clone(),
                },
            ),
            Term::If(If { condition, then: consequent, otherwise, location }) => Term::If(
                If {
                    condition: Box::new((**condition).clone()),
                    then: Box::new((**consequent).clone()),
                    otherwise: Box::new((**otherwise).clone()),
                    location: location.clone(),
                },
            ),
            Term::Int(x) => Term::Int(Int { value: x.value, location: x.location.clone() }),
            Term::Let(x) => Term::Let(
                Let {
                    name: x.name.clone(),
                    value: Box::new((*x.value).clone()),
                    next: Box::new((*x.next).clone()),
                    location: x.location.clone(),
                },
            ),
            Term::Print(x) => Term::Print(
                Print { value: Box::new((*x.value).clone()), location: x.location.clone() },
            ),
            Term::Second(x) => Term::Second(
                Second { value: Box::new((*x.value).clone()), location: x.location.clone() },
            ),
            Term::Str(x) => Term::Str(
                Str { value: x.value.clone(), location: x.location.clone() },
            ),
            Term::Tuple(x) => Term::Tuple(
                Tuple {
                    first: Box::new((*x.first).clone()),
                    second: Box::new((*x.second).clone()),
                    location: x.location.clone(),
                },
            ),
            Term::Var(x) => Term::Var(Var { text: x.text.clone(), location: x.location.clone() }),
        }
    }
}

impl Location {
    /// Whether two locations hold the same values.
    pub fn equals(&self, other: &Location) -> (r: bool)
        ensures
            r == (self@ == other@),
    {
        self.start == other.start && self.end == other.end && self.filename == other.filename
    }
}

impl Parameter {
    /// Whether two parameters have the same name and place.
    pub fn equals(&self, other: &Parameter) -> (r: bool)
        ensures
            r == (self@ == other@),
    {
        self.text == other.text && self.location.equals(&other.location)
    }
}

/// Whether two lists of parameters are equal, one by one.
pub fn equal_parameters(a: &Vec<Parameter>, b: &Vec<Parameter>) -> (r: bool)
    ensures
        r == (parameters_view(a@) == parameters_view(b@)),
{
    if a.len() != b.len() {
        assert(parameters_view(a@).len() != parameters_view(b@).len());
        return false;
    }
    let mut i: usize = 0;
    while i < a.len()
        invariant
            i <= a.len(),
            a.len() == b.len(),
            forall|j: int| 0 <= j < i ==> a[j]@ == b[j]@,
        decreases a.len() - i,
    {
        if !a[i].equals(&b[i]) {
            assert(parameters_view(a@)[i as int] != parameters_view(b@)[i as int]);
            return false;
        }
        i += 1;
    }
    assert(parameters_view(a@) =~= parameters_view(b@));
    true
}

/// Whether two lists of terms are equal, one by one.
pub fn equal_terms(a: &Vec<Term>, b: &Vec<Term>) -> (r: bool)
    ensures
        r == (terms_view(a@) == terms_view(b@)),
    decreases a,
{
    if a.len() != b.len() {
        assert(terms_view(a@).len() != terms_view(b@).len());
        return false;
    }
    let mut i: usize = 0;
    while i < a.len()
        invariant
            i <= a.len(),
            a.len() == b.len(),
            forall|j: int| 0 <= j < i ==> a[j]@ == b[j]@,
        decreases a.len() - i,
    {
        if !a[i].equals(&b[i]) {
            assert(terms_view(a@)[i as int] != terms_view(b@)[i as int]);
            return false;
        }
        i += 1;
    }
    assert(terms_view(a@) =~= terms_view(b@));
    true
}

impl Term {
    /// Whether two terms are the same tree: the same nodes with the same values
    /// and places.
    pub fn equals(&self, other: &Term) -> (r: bool)
        ensures
            r == (self@ == other@),
        decreases self,
    {
        match (self, other) {
            (Term::Binary(x), Term::Binary(y)) => {
                x.lhs.equals(&y.lhs) && x.op == y.op && x.rhs.equals(&y.rhs) && x.location.equals(
                    &y.location,
                )
            },
            (Term::Bool(x), Term::Bool(y)) => {
                x.value == y.value && x.location.equals(&y.location)
            },
            (Term::Call(x), Term::Call(y)) => {
                x.callee.equals(&y.callee) && equal_terms(&x.arguments, &y.arguments)
                    && x.location.equals(&y.location)
            },
            (Term::First(x), Term::First(y)) => {
                x.value.equals(&y.value) && x.location.equals(&y.location)
            },
            (Term::Function(x), Term::Function(y)) => {
                equal_parameters(&x.parameters, &y.parameters) && x.value.equals(&y.value)
                    && x.location.equals(&y.location)
            },
            (
                Term::If(If { condition: c1, then: t1, otherwise: o1, location: l1 }),
                Term::If(If { condition: c2, then: t2, otherwise: o2, location: l2 }),
            ) => { c1.equals(c2) && t1.equals(t2) && o1.equals(o2) && l1.equals(l2) },
            (Term::Int(x), Term::Int(y)) => {
                x.value == y.value && x.location.equals(&y.location)
            },
            (Term::Let(x), Term::Let(y)) => {
                x.name.equals(&y.name) && x.value.equals(&y.value) && x.next.equals(&y.next)
                    && x.location.equals(&y.location)
            },
            (Term::Print(x), Term::Print(y)) => {
                x.value.equals(&y.value) && x.location.equals(&y.location)
            },
            (Term::Second(x), Term::Second(y)) => {
                x.value.equals(&y.value) && x.location.equals(&y.location)
            },
            (Term::Str(x), Term::Str(y)) => {
                x.value == y.value && x.location.equals(&y.location)
            },
            (Term::Tuple(x), Term::Tuple(y)) => {
                x.first.equals(&y.first) && x.second.equals(&y.second) && x.location.equals(
                    &y.location,
                )
            },
            (Term::Var(x), Term::Var(y)) => {
                x.text == y.text && x.location.equals(&y.location)
            },
            _ => false,
        }
    }
}

/// The place of a term in the source.
pub open spec fn location_of(term: TermView) -> LocationView {
    match term {
        TermView::Binary { location, .. } => location,
        TermView::Bool { location, .. } => location,
        TermView::Call { location, .. } => location,
        TermView::First { location, .. } => location,
        TermView::Function { location, .. } => location,
        TermView::If { location, .. } => location,
        TermView::Int { location, .. } => location,
        TermView::Let { location, .. } => location,
        TermView::Print { location, .. } => location,
        TermView::Second { location, .. } => location,
        TermView::Str { location, .. } => location,
        TermView::Tuple { location, .. } => location,
        TermView::Var { location, .. } => location,
    }
}

impl Term {
    /// The place of this term in the source.
    pub fn location(&self) -> (location: &Location)
        ensures
            location@ == location_of(self@),
    {
        match self {
            Term::Binary(x) => &x.location,
            Term::Bool(x) => &x.location,
            Term::Call(x) => &x.location,
            Term::First(x) => &x.location,
            Term::Function(x) => &x.location,
            Term::If(x) => &x.location,
            Term::Int(x) => &x.location,
            Term::Let(x) => &x.location,
            Term::Print(x) => &x.location,
            Term::Second(x) => &x.location,
            Term::Str(x) => &x.location,
            Term::Tuple(x) => &x.location,
            Term::Var(x) => &x.location,
        }
    }
}

} // verus!
