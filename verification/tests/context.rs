use num_bigint::BigInt;
use rinha::ast::{Int, Location, Parameter, Term};
use rinha::context::Context;
use rinha::error::Error;
use rinha::value::{Closure, Output};

fn name(text: &str) -> String {
    String::from(text)
}

fn big(value: i64) -> Output {
    Output::Int(BigInt::from(value))
}

#[test]
fn a_fresh_environment_binds_nothing() {
    let context = Context::new();
    assert_eq!(context.current(), 0);
    assert_eq!(context.len(), 1);
    assert!(context.resolve(&name("x")).is_none());
    assert!(context.printed().is_empty());
}

#[test]
fn bind_adds_to_the_current_scope_and_overwrites_there() {
    let mut context = Context::new();
    context.bind(name("x"), big(1));
    context.bind(name("y"), Output::Bool(true));
    assert_eq!(context.resolve(&name("x")), Some(big(1)));
    assert_eq!(context.resolve(&name("y")), Some(Output::Bool(true)));
    context.bind(name("x"), Output::Str(name("again")));
    assert_eq!(context.resolve(&name("x")), Some(Output::Str(name("again"))));
    assert_eq!(context.resolve(&name("y")), Some(Output::Bool(true)));
    assert_eq!(context.resolve(&name("z")), None);
}

#[test]
fn resolve_goes_from_the_innermost_scope_outwards() {
    let mut context = Context::new();
    context.bind(name("x"), big(1));
    context.bind(name("outer"), big(10));
    let child = context.child_of(0);
    assert_eq!(child, 1);
    assert_eq!(context.current(), 0);
    context.enter(child);
    assert_eq!(context.current(), 1);
    assert_eq!(context.resolve(&name("x")), Some(big(1)));
    context.bind(name("x"), big(2));
    assert_eq!(context.resolve(&name("x")), Some(big(2)));
    assert_eq!(context.resolve(&name("outer")), Some(big(10)));
    let grandchild = context.child_of(child);
    context.enter(grandchild);
    assert_eq!(context.resolve(&name("x")), Some(big(2)));
    context.enter(0);
    assert_eq!(context.resolve(&name("x")), Some(big(1)));
}

#[test]
fn a_scope_does_not_see_its_siblings_or_children() {
    let mut context = Context::new();
    let left = context.child_of(0);
    let right = context.child_of(0);
    context.bind_in(left, name("l"), big(1));
    context.bind_in(right, name("r"), big(2));
    assert_eq!(context.resolve(&name("l")), None);
    context.enter(left);
    assert_eq!(context.resolve(&name("l")), Some(big(1)));
    assert_eq!(context.resolve(&name("r")), None);
    context.enter(right);
    assert_eq!(context.resolve(&name("r")), Some(big(2)));
    assert_eq!(context.resolve(&name("l")), None);
}

#[test]
fn a_binding_made_later_is_seen_through_an_older_handle() {
    let mut context = Context::new();
    let scope = context.child_of(0);
    let closure = Output::Closure(Closure {
        body: Term::Int(Int {
            value: 1,
            location: Location { start: 0, end: 1, filename: name("f") },
        }),
        args: vec![Parameter {
            text: name("n"),
            location: Location { start: 0, end: 1, filename: name("f") },
        }],
        context: scope,
    });
    context.bind_in(scope, name("me"), closure.clone());
    let call = context.child_of(scope);
    context.enter(call);
    assert_eq!(context.resolve(&name("me")), Some(closure));
}

#[test]
fn printed_lines_keep_their_order() {
    let mut context = Context::new();
    context.print(name("one"));
    context.print(name(""));
    context.print(name("three"));
    assert_eq!(context.printed(), &vec!["one", "", "three"]);
}

#[test]
fn an_error_takes_the_parts_of_its_location() {
    let location = Location { start: 4, end: 9, filename: name("files/fib.rinha") };
    let error = Error::new("Calling a not callable", location);
    assert_eq!(error.message, "Calling a not callable");
    assert_eq!(error.start, 4);
    assert_eq!(error.end, 9);
    assert_eq!(error.filename, "files/fib.rinha");
}
