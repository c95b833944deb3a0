use num_bigint::BigInt;
use rinha::ast::{
    clone_parameters, clone_terms, equal_parameters, equal_terms, Binary, BinaryOp, Call, File,
    Function, If, Int, Let, Location, Parameter, Str, Term, Var,
};
use rinha::error::{decimal_text, Error};
use rinha::ops::{apply_binary, string_less};
use rinha::value::{Closure, Output};

fn at(start: usize, end: usize) -> Location {
    Location { start, end, filename: String::from("value.rinha") }
}

fn number(value: i32, start: usize) -> Term {
    Term::Int(Int { value, location: at(start, start + 1) })
}

fn variable(text: &str, start: usize) -> Term {
    Term::Var(Var { text: String::from(text), location: at(start, start + text.len()) })
}

fn sample() -> Term {
    Term::Let(Let {
        name: Parameter { text: String::from("f"), location: at(4, 5) },
        value: Box::new(Term::Function(Function {
            parameters: vec![
                Parameter { text: String::from("a"), location: at(12, 13) },
                Parameter { text: String::from("b"), location: at(15, 16) },
            ],
            value: Box::new(Term::If(If {
                condition: Box::new(Term::Binary(Binary {
                    lhs: Box::new(variable("a", 25)),
                    op: BinaryOp::Lt,
                    rhs: Box::new(variable("b", 29)),
                    location: at(25, 30),
                })),
                then: Box::new(Term::Str(Str { value: String::from("less"), location: at(33, 39) })),
                otherwise: Box::new(number(0, 47)),
                location: at(21, 50),
            })),
            location: at(8, 50),
        })),
        next: Box::new(Term::Call(Call {
            callee: Box::new(variable("f", 52)),
            arguments: vec![number(1, 54), number(2, 57)],
            location: at(52, 59),
        })),
        location: at(0, 59),
    })
}

fn big(value: i64) -> Output {
    Output::Int(BigInt::from(value))
}

#[test]
fn a_copy_of_a_term_is_the_same_tree() {
    let term = sample();
    let copy = term.clone();
    assert_eq!(copy, term);
    assert!(copy.equals(&term));
    assert!(term.equals(&term));
}

#[test]
fn terms_differ_by_any_part() {
    let term = sample();
    assert!(!term.equals(&number(1, 0)));
    assert!(!number(1, 0).equals(&number(2, 0)));
    assert!(!number(1, 0).equals(&number(1, 1)));
    assert!(!variable("a", 0).equals(&variable("b", 0)));
    assert!(variable("a", 0).equals(&variable("a", 0)));
    let mut other = sample();
    if let Term::Let(ref mut x) = other {
        if let Term::Call(ref mut call) = *x.next {
            call.arguments.pop();
        }
    }
    assert!(!term.equals(&other));
    let mut other = sample();
    if let Term::Let(ref mut x) = other {
        x.name.location.end = 6;
    }
    assert!(!term.equals(&other));
}

#[test]
fn lists_are_compared_and_copied_one_by_one() {
    let terms = vec![number(1, 0), variable("x", 2), sample()];
    let copy = clone_terms(&terms);
    assert_eq!(copy, terms);
    assert!(equal_terms(&copy, &terms));
    assert!(!equal_terms(&copy, &vec![number(1, 0), variable("x", 2)]));
    assert!(!equal_terms(&copy, &vec![number(1, 0), variable("y", 2), sample()]));
    assert!(equal_terms(&vec![], &vec![]));

    let parameters = vec![
        Parameter { text: String::from("a"), location: at(0, 1) },
        Parameter { text: String::from("b"), location: at(2, 3) },
    ];
    let copy = clone_parameters(&parameters);
    assert_eq!(copy, parameters);
    assert!(equal_parameters(&copy, &parameters));
    assert!(!equal_parameters(&copy, &parameters[..1].to_vec()));
    assert!(parameters[0].equals(&parameters[0]));
    assert!(!parameters[0].equals(&parameters[1]));
    assert!(at(1, 2).equals(&at(1, 2)));
    assert!(!at(1, 2).equals(&at(1, 3)));
}

#[test]
fn a_term_knows_its_place() {
    assert_eq!(sample().location(), &at(0, 59));
    assert_eq!(number(1, 7).location(), &at(7, 8));
    let file = File { name: String::from("value.rinha"), expression: sample(), location: at(0, 59) };
    assert_eq!(file.expression.location(), &file.location);
}

#[test]
fn values_are_equal_by_structure() {
    let closure = |context: usize| {
        Output::Closure(Closure {
            body: number(1, 0),
            args: vec![Parameter { text: String::from("x"), location: at(0, 1) }],
            context,
        })
    };
    let pair = |a: Output, b: Output| Output::Tuple((Box::new(a), Box::new(b)));
    let values = [
        Output::Bool(true),
        Output::Bool(false),
        big(0),
        big(1),
        Output::Str(String::from("1")),
        Output::Str(String::new()),
        pair(big(1), Output::Void),
        pair(Output::Void, big(1)),
        closure(0),
        closure(1),
        Output::Void,
    ];
    for (i, a) in values.iter().enumerate() {
        for (j, b) in values.iter().enumerate() {
            assert_eq!(a.equals(b), i == j, "{:?} and {:?}", a, b);
            assert_eq!(a == b, i == j);
        }
        let copy = a.clone();
        assert!(copy.equals(a));
        assert_eq!(&copy, a);
    }
}

#[test]
fn an_operator_is_applied_to_two_values() {
    let place = at(3, 8);
    let sum = apply_binary(BinaryOp::Add, big(40), big(2), &place).unwrap();
    assert_eq!(sum, big(42));
    let joined = apply_binary(
        BinaryOp::Add,
        Output::Str(String::from("a")),
        Output::Str(String::from("b")),
        &place,
    )
    .unwrap();
    assert_eq!(joined, Output::Str(String::from("ab")));
    let error = apply_binary(BinaryOp::Mul, big(1), Output::Void, &place).unwrap_err();
    assert_eq!(error.message, "Cannot perform mul operation");
    assert_eq!((error.start, error.end), (3, 8));
    assert_eq!(error.filename, "value.rinha");
    let right = apply_binary(BinaryOp::Or, Output::Void, Output::Void, &place).unwrap();
    assert_eq!(right, Output::Void);
}

#[test]
fn strings_come_in_the_order_of_their_bytes() {
    let words = ["", "A", "a", "aa", "ab", "b", "é", "日本", "😀"];
    for a in words {
        for b in words {
            assert_eq!(string_less(&String::from(a), &String::from(b)), a < b, "{} {}", a, b);
        }
    }
}

#[test]
fn numbers_are_written_in_decimal() {
    assert_eq!(decimal_text(0), "0");
    assert_eq!(decimal_text(7), "7");
    assert_eq!(decimal_text(10), "10");
    assert_eq!(decimal_text(1234567890), "1234567890");
    assert_eq!(decimal_text(usize::MAX), format!("{}", usize::MAX));
}

#[test]
fn an_error_is_reported_with_its_file_and_place() {
    let error = Error::new("Calling a not callable", at(12, 34));
    assert_eq!(error.report(), "value.rinha:12:34: Calling a not callable");
    let error = Error::new("", Location { start: 0, end: 0, filename: String::new() });
    assert_eq!(error.report(), ":0:0: ");
}
