//! The meaning of terms, and the evaluator that computes it.
use crate::ast::{
    clone_parameters, location_of, terms_view, Binary, Call, First, If, Let, LocationView,
    ParameterView, Print, Second, Term, TermView, Tuple, Var,
};
use crate::bignum::from_i32;
use crate::context::{
    lemma_bind_in_keeps_wf, lemma_binding_seen_from_inside, lemma_child_of_keeps_wf,
    lemma_lookup_handles, Context, ContextView,
};
use crate::error::{Error, ErrorView};
use crate::fib::{fast_fib, fib};
use crate::ops::{apply_binary, binary_result, lemma_binary_result_handles, result_view};
use crate::value::{
    display, handles_below, lemma_handles_below_grows, Closure, ClosureView, Output, Value,
};
use vstd::prelude::*;

verus! {

/// How an evaluation ends: with a value or an error, and the environment as
/// the evaluation left it, with all that it bound and printed.
pub struct Outcome {
    pub result: Result<Value, ErrorView>,
    pub context: ContextView,
}

/// The name whose calls with one integer argument are answered by the fast
/// Fibonacci routine, whatever the program binds to it.
pub open spec fn fast_name() -> Seq<char> {
    "fib"@
}

/// Whether a call has the shape that the fast path takes: the bare reserved
/// name applied to one argument.
pub open spec fn is_fast_call(callee: TermView, arguments: Seq<TermView>) -> bool {
    callee matches TermView::Var { text, .. } && text == fast_name() && arguments.len() == 1
}

/// The value that `Let` binds: a closure is made to capture the scope it is
/// bound in, so that its body sees its own name; any other value is bound as
/// it is.
pub open spec fn rewrap(value: Value, scope: nat) -> Value {
    match value {
        Value::Closure(c) => Value::Closure(
            ClosureView { body: c.body, args: c.args, context: scope },
        ),
        _ => value,
    }
}

/// The message for a name that no scope on the way binds.
pub open spec fn undeclared(name: Seq<char>) -> Seq<char> {
    "Variable "@ + name + " is not declared"@
}

/// `Print`, once its operand is evaluated: one more line, and the void value.
pub open spec fn print_result(operand: Outcome) -> Outcome {
    match operand.result {
        Ok(value) => Outcome {
            result: Ok(Value::Void),
            context: operand.context.print(display(value)),
        },
        Err(_) => operand,
    }
}

/// `First` or `Second`, once its operand is evaluated: that side of a pair.
pub open spec fn project_result(operand: Outcome, second: bool, location: LocationView) -> Outcome {
    match operand.result {
        Ok(Value::Tuple(a, b)) => Outcome {
            result: Ok(
                if second {
                    *b
                } else {
                    *a
                },
            ),
            context: operand.context,
        },
        Ok(_) => Outcome {
            result: Err(
                Error::at(
                    if second {
                        "Cannot access second of a non tuple argument"@
                    } else {
                        "Cannot access first of a non tuple argument"@
                    },
                    location,
                ),
            ),
            context: operand.context,
        },
        Err(_) => operand,
    }
}

/// The meaning of a term: what evaluating it in `context` gives, with at most
/// `depth` evaluations nested in one another.
///
/// Evaluation is eager and goes from left to right. It stops at the first
/// error, and leaves the environment as it was at that point: what was bound
/// and printed before stays. The scope in which evaluation stands is the same
/// after as before. Where `depth` is used up, the result is an error at the
/// term that could not be entered.
pub open spec fn evaluate(term: TermView, context: ContextView, depth: nat) -> Outcome
    decreases depth, 0nat, 0nat,
{
    if depth == 0 {
        Outcome {
            result: Err(Error::at("Maximum evaluation depth exceeded"@, location_of(term))),
            context,
        }
    } else {
        let below = (depth - 1) as nat;
        match term {
            TermView::Bool { value, .. } => Outcome { result: Ok(Value::Bool(value)), context },
            TermView::Int { value, .. } => Outcome { result: Ok(Value::Int(value)), context },
            TermView::Str { value, .. } => Outcome { result: Ok(Value::Str(value)), context },
            TermView::Print { value, .. } => print_result(evaluate(*value, context, below)),
            TermView::Binary { lhs, op, rhs, location } => {
                let left = evaluate(*lhs, context, below);
                match left.result {
                    Ok(a) => {
                        let right = evaluate(*rhs, left.context, below);
                        match right.result {
                            Ok(b) => Outcome {
                                result: binary_result(op, a, b, location),
                                context: right.context,
                            },
                            Err(_) => right,
                        }
                    },
                    Err(_) => left,
                }
            },
            TermView::If { condition, consequent, otherwise, location } => {
                let test = evaluate(*condition, context, below);
                match test.result {
                    Ok(Value::Bool(chosen)) => if chosen {
                        evaluate(*consequent, test.context, below)
                    } else {
                        evaluate(*otherwise, test.context, below)
                    },
                    Ok(_) => Outcome {
                        result: Err(
                            Error::at(
                                "Condition expression not resolve to a boolean primitive"@,
                                location,
                            ),
                        ),
                        context: test.context,
                    },
                    Err(_) => test,
                }
            },
            TermView::Tuple { first, second, .. } => {
                let left = evaluate(*first, context, below);
                match left.result {
                    Ok(a) => {
                        let right = evaluate(*second, left.context, below);
                        match right.result {
                            Ok(b) => Outcome {
                                result: Ok(Value::Tuple(Box::new(a), Box::new(b))),
                                context: right.context,
                            },
                            Err(_) => right,
                        }
                    },
                    Err(_) => left,
                }
            },
            TermView::First { value, location } => project_result(
                evaluate(*value, context, below),
                false,
                location,
            ),
            TermView::Second { value, location } => project_result(
                evaluate(*value, context, below),
                true,
                location,
            ),
            TermView::Var { text, location } => Outcome {
                result: match context.resolve(text) {
                    Some(value) => Ok(value),
                    None => Err(Error::at(undeclared(text), location)),
                },
                context,
            },
            TermView::Let { name, value, next, .. } => {
                let bound = evaluate(*value, context, below);
                match bound.result {
                    Ok(v) => evaluate(
                        *next,
                        bound.context.bind(name.text, rewrap(v, bound.context.current)),
                        below,
                    ),
                    Err(_) => bound,
                }
            },
            TermView::Function { parameters, value, .. } => Outcome {
                result: Ok(
                    Value::Closure(
                        ClosureView { body: *value, args: parameters, context: context.current },
                    ),
                ),
                context,
            },
            TermView::Call { callee, arguments, location } => {
                if is_fast_call(*callee, arguments) {
                    let argument = evaluate(arguments[0], context, below);
                    match argument.result {
                        Ok(Value::Int(n)) => Outcome {
                            result: Ok(Value::Int(fib(n))),
                            context: argument.context,
                        },
                        Ok(_) => apply(*callee, arguments, location, argument.context, below),
                        Err(_) => argument,
                    }
                } else {
                    apply(*callee, arguments, location, context, below)
                }
            },
        }
    }
}

/// A call of a function of the program: the callee is evaluated and must be a
/// closure with as many parameters as there are arguments. A new scope is made
/// inside the scope that the closure captured. The arguments are evaluated in
/// the caller's scope, from left to right, and each is bound to its parameter
/// in the new scope. The body is evaluated there, and evaluation comes back to
/// the caller's scope.
pub open spec fn apply(
    callee: TermView,
    arguments: Seq<TermView>,
    location: LocationView,
    context: ContextView,
    depth: nat,
) -> Outcome
    decreases depth, 2nat, 0nat,
{
    let function = evaluate(callee, context, depth);
    match function.result {
        Ok(Value::Closure(closure)) => {
            if closure.args.len() != arguments.len() {
                Outcome {
                    result: Err(
                        Error::at(
                            "Arguments declaration differs parameters declaration"@,
                            location,
                        ),
                    ),
                    context: function.context,
                }
            } else {
                let scope = function.context.scopes.len();
                let made = function.context.child_of(closure.context);
                let bound = bind_arguments(arguments, closure.args, 0, scope, made, depth);
                match bound.result {
                    Ok(_) => {
                        let body = evaluate(closure.body, bound.context.at(scope), depth);
                        Outcome { result: body.result, context: body.context.at(context.current) }
                    },
                    Err(_) => bound,
                }
            }
        },
        Ok(_) => Outcome {
            result: Err(Error::at("Calling a not callable"@, location)),
            context: function.context,
        },
        Err(_) => function,
    }
}

/// The arguments of a call from the one at `from` on: each is evaluated in the
/// current scope and bound to its parameter in the scope `scope`. The first
/// error ends it.
pub open spec fn bind_arguments(
    arguments: Seq<TermView>,
    parameters: Seq<ParameterView>,
    from: nat,
    scope: nat,
    context: ContextView,
    depth: nat,
) -> Outcome
    decreases depth, 1nat, arguments.len() - from,
{
    if from >= arguments.len() {
        Outcome { result: Ok(Value::Void), context }
    } else {
        let argument = evaluate(arguments[from as int], context, depth);
        match argument.result {
            Ok(value) => bind_arguments(
                arguments,
                parameters,
                from + 1,
                scope,
                argument.context.bind_in(scope, parameters[from as int].text, value),
                depth,
            ),
            Err(_) => argument,
        }
    }
}

/// Evaluating one term twice, each time from a fresh top-level environment,
/// gives the same result and prints the same lines.
pub proof fn lemma_evaluation_repeats(term: TermView, depth: nat, first: Outcome, second: Outcome)
    requires
        first == evaluate(term, ContextView::fresh(), depth),
        second == evaluate(term, ContextView::fresh(), depth),
    ensures
        first.result == second.result,
        first.context.printed == second.context.printed,
{
}

/// A function bound by `Let` sees its own name when it is called: in the scope
/// of the call, the name resolves to the closure that was bound.
pub proof fn lemma_let_bound_function_sees_itself(
    context: ContextView,
    name: ParameterView,
    parameters: Seq<ParameterView>,
    body: TermView,
    location: LocationView,
    depth: nat,
)
    requires
        context.wf(),
        depth > 0,
    ensures
        ({
            let function = TermView::Function { parameters, value: Box::new(body), location };
            let made = evaluate(function, context, depth);
            let closure = ClosureView { body, args: parameters, context: context.current };
            let bound = made.context.bind(name.text, rewrap(made.result->Ok_0, context.current));
            &&& made.result == Ok::<Value, ErrorView>(Value::Closure(closure))
            &&& bound.resolve(name.text) == Some(Value::Closure(closure))
            &&& bound.child_of(closure.context).at(bound.scopes.len()).resolve(name.text) == Some(
                Value::Closure(closure),
            )
        }),
{
    let closure = ClosureView { body, args: parameters, context: context.current };
    lemma_binding_seen_from_inside(context, name.text, Value::Closure(closure));
}

/// Whether an evaluation ended because its depth was used up.
pub open spec fn exhausted(outcome: Outcome) -> bool {
    outcome.result matches Err(error) && error.message == "Maximum evaluation depth exceeded"@
}

/// The depth only decides whether an evaluation can be carried through: one
/// that did not use up its depth gives the same, value or error, environment
/// and printed lines, with every larger depth.
pub proof fn lemma_depth_is_enough(term: TermView, context: ContextView, depth: nat, more: nat)
    requires
        depth <= more,
        !exhausted(evaluate(term, context, depth)),
    ensures
        evaluate(term, context, more) == evaluate(term, context, depth),
    decreases depth, 0nat, 0nat,
{
    if depth > 0 {
        let below = (depth - 1) as nat;
        let deeper = (more - 1) as nat;
        match term {
            TermView::Print { value, .. } => {
                lemma_depth_is_enough(*value, context, below, deeper);
            },
            TermView::Binary { lhs, rhs, .. } => {
                lemma_depth_is_enough(*lhs, context, below, deeper);
                let left = evaluate(*lhs, context, below);
                if left.result is Ok {
                    lemma_depth_is_enough(*rhs, left.context, below, deeper);
                }
            },
            TermView::If { condition, consequent, otherwise, .. } => {
                lemma_depth_is_enough(*condition, context, below, deeper);
                let test = evaluate(*condition, context, below);
                match test.result {
                    Ok(Value::Bool(chosen)) => {
                        if chosen {
                            lemma_depth_is_enough(*consequent, test.context, below, deeper);
                        } else {
                            lemma_depth_is_enough(*otherwise, test.context, below, deeper);
                        }
                    },
                    _ => {},
                }
            },
            TermView::Tuple { first, second, .. } => {
                lemma_depth_is_enough(*first, context, below, deeper);
                let left = evaluate(*first, context, below);
                if left.result is Ok {
                    lemma_depth_is_enough(*second, left.context, below, deeper);
                }
            },
            TermView::First { value, .. } => {
                lemma_depth_is_enough(*value, context, below, deeper);
            },
            TermView::Second { value, .. } => {
                lemma_depth_is_enough(*value, context, below, deeper);
            },
            TermView::Let { name, value, next, .. } => {
                lemma_depth_is_enough(*value, context, below, deeper);
                let bound = evaluate(*value, context, below);
                match bound.result {
                    Ok(v) => {
                        lemma_depth_is_enough(
                            *next,
                            bound.context.bind(name.text, rewrap(v, bound.context.current)),
                            below,
                            deeper,
                        );
                    },
                    Err(_) => {},
                }
            },
            TermView::Call { callee, arguments, location } => {
                if is_fast_call(*callee, arguments) {
                    lemma_depth_is_enough(arguments[0], context, below, deeper);
                    let argument = evaluate(arguments[0], context, below);
                    match argument.result {
                        Ok(Value::Int(_)) => {},
                        Ok(_) => {
                            lemma_depth_is_enough_for_call(
                                *callee,
                                arguments,
                                location,
                                argument.context,
                                below,
                                deeper,
                            );
                        },
                        Err(_) => {},
                    }
                } else {
                    lemma_depth_is_enough_for_call(
                        *callee,
                        arguments,
                        location,
                        context,
                        below,
                        deeper,
                    );
                }
            },
            _ => {},
        }
    }
}

/// The same of a call of a function of the program.
pub proof fn lemma_depth_is_enough_for_call(
    callee: TermView,
    arguments: Seq<TermView>,
    location: LocationView,
    context: ContextView,
    depth: nat,
    more: nat,
)
    requires
        depth <= more,
        !exhausted(apply(callee, arguments, location, context, depth)),
    ensures
        apply(callee, arguments, location, context, more) == apply(
            callee,
            arguments,
            location,
            context,
            depth,
        ),
    decreases depth, 2nat, 0nat,
{
    lemma_depth_is_enough(callee, context, depth, more);
    let function = evaluate(callee, context, depth);
    match function.result {
        Ok(Value::Closure(closure)) => {
            if closure.args.len() == arguments.len() {
                let scope = function.context.scopes.len();
                let made = function.context.child_of(closure.context);
                lemma_depth_is_enough_for_arguments(
                    arguments,
                    closure.args,
                    0,
                    scope,
                    made,
                    depth,
                    more,
                );
                let bound = bind_arguments(arguments, closure.args, 0, scope, made, depth);
                if bound.result is Ok {
                    lemma_depth_is_enough(closure.body, bound.context.at(scope), depth, more);
                }
            }
        },
        _ => {},
    }
}

/// The same of the arguments of a call.
pub proof fn lemma_depth_is_enough_for_arguments(
    arguments: Seq<TermView>,
    parameters: Seq<ParameterView>,
    from: nat,
    scope: nat,
    context: ContextView,
    depth: nat,
    more: nat,
)
    requires
        depth <= more,
        !exhausted(bind_arguments(arguments, parameters, from, scope, context, depth)),
    ensures
        bind_arguments(arguments, parameters, from, scope, context, more) == bind_arguments(
            arguments,
            parameters,
            from,
            scope,
            context,
            depth,
        ),
    decreases depth, 1nat, arguments.len() - from,
{
    if from < arguments.len() {
        lemma_depth_is_enough(arguments[from as int], context, depth, more);
        let argument = evaluate(arguments[from as int], context, depth);
        match argument.result {
            Ok(value) => {
                lemma_depth_is_enough_for_arguments(
                    arguments,
                    parameters,
                    from + 1,
                    scope,
                    argument.context.bind_in(scope, parameters[from as int].text, value),
                    depth,
                    more,
                );
            },
            Err(_) => {},
        }
    }
}

/// What an evaluation that gave `r` and left `context` amounts to.
pub open spec fn outcome(r: Result<Output, Error>, context: ContextView) -> Outcome {
    Outcome { result: result_view(r), context }
}

/// What holds of every evaluation that starts in a well-formed environment:
/// the environment is well-formed after it, evaluation stands in the same
/// scope as before, no scope is lost, what was printed before is still there,
/// in front of what came after, and the closures of the value name scopes that
/// exist.
pub open spec fn well_behaved(before: ContextView, after: Outcome) -> bool {
    &&& after.context.wf()
    &&& after.context.current == before.current
    &&& before.scopes.len() <= after.context.scopes.len()
    &&& before.printed.len() <= after.context.printed.len()
    &&& after.context.printed.subrange(0, before.printed.len() as int) =~= before.printed
    &&& after.result matches Ok(value) ==> handles_below(value, after.context.scopes.len())
}

/// The meaning of a term is well-behaved.
pub proof fn lemma_evaluation_is_well_behaved(term: TermView, context: ContextView, depth: nat)
    requires
        context.wf(),
    ensures
        well_behaved(context, evaluate(term, context, depth)),
    decreases depth, 0nat, 0nat,
{
    if depth > 0 {
        let below = (depth - 1) as nat;
        match term {
            TermView::Print { value, .. } => {
                lemma_evaluation_is_well_behaved(*value, context, below);
            },
            TermView::Binary { lhs, op, rhs, location } => {
                lemma_evaluation_is_well_behaved(*lhs, context, below);
                let left = evaluate(*lhs, context, below);
                match left.result {
                    Ok(a) => {
                        lemma_evaluation_is_well_behaved(*rhs, left.context, below);
                        let right = evaluate(*rhs, left.context, below);
                        match right.result {
                            Ok(b) => {
                                lemma_handles_below_grows(
                                    a,
                                    left.context.scopes.len(),
                                    right.context.scopes.len(),
                                );
                                lemma_binary_result_handles(
                                    op,
                                    a,
                                    b,
                                    location,
                                    right.context.scopes.len(),
                                );
                            },
                            Err(_) => {},
                        }
                    },
                    Err(_) => {},
                }
            },
            TermView::If { condition, consequent, otherwise, .. } => {
                lemma_evaluation_is_well_behaved(*condition, context, below);
                let test = evaluate(*condition, context, below);
                match test.result {
                    Ok(Value::Bool(chosen)) => {
                        if chosen {
                            lemma_evaluation_is_well_behaved(*consequent, test.context, below);
                        } else {
                            lemma_evaluation_is_well_behaved(*otherwise, test.context, below);
                        }
                    },
                    _ => {},
                }
            },
            TermView::Tuple { first, second, .. } => {
                lemma_evaluation_is_well_behaved(*first, context, below);
                let left = evaluate(*first, context, below);
                match left.result {
                    Ok(a) => {
                        lemma_evaluation_is_well_behaved(*second, left.context, below);
                        let right = evaluate(*second, left.context, below);
                        lemma_handles_below_grows(
                            a,
                            left.context.scopes.len(),
                            right.context.scopes.len(),
                        );
                    },
                    Err(_) => {},
                }
            },
            TermView::First { value, .. } => {
                lemma_evaluation_is_well_behaved(*value, context, below);
            },
            TermView::Second { value, .. } => {
                lemma_evaluation_is_well_behaved(*value, context, below);
            },
            TermView::Var { text, .. } => {
                lemma_lookup_handles(context, context.current, text);
            },
            TermView::Let { name, value, next, .. } => {
                lemma_evaluation_is_well_behaved(*value, context, below);
                let bound = evaluate(*value, context, below);
                match bound.result {
                    Ok(v) => {
                        let kept = rewrap(v, bound.context.current);
                        lemma_bind_in_keeps_wf(
                            bound.context,
                            bound.context.current,
                            name.text,
                            kept,
                        );
                        lemma_evaluation_is_well_behaved(
                            *next,
                            bound.context.bind(name.text, kept),
                            below,
                        );
                    },
                    Err(_) => {},
                }
            },
            TermView::Call { callee, arguments, location } => {
                if is_fast_call(*callee, arguments) {
                    lemma_evaluation_is_well_behaved(arguments[0], context, below);
                    let argument = evaluate(arguments[0], context, below);
                    match argument.result {
                        Ok(Value::Int(_)) => {},
                        Ok(_) => {
                            lemma_call_is_well_behaved(
                                *callee,
                                arguments,
                                location,
                                argument.context,
                                below,
                            );
                        },
                        Err(_) => {},
                    }
                } else {
                    lemma_call_is_well_behaved(*callee, arguments, location, context, below);
                }
            },
            _ => {},
        }
    }
}

/// The same of a call of a function of the program.
pub proof fn lemma_call_is_well_behaved(
    callee: TermView,
    arguments: Seq<TermView>,
    location: LocationView,
    context: ContextView,
    depth: nat,
)
    requires
        context.wf(),
    ensures
        well_behaved(context, apply(callee, arguments, location, context, depth)),
    decreases depth, 2nat, 0nat,
{
    lemma_evaluation_is_well_behaved(callee, context, depth);
    let function = evaluate(callee, context, depth);
    match function.result {
        Ok(Value::Closure(closure)) => {
            if closure.args.len() == arguments.len() {
                let scope = function.context.scopes.len();
                let made = function.context.child_of(closure.context);
                lemma_child_of_keeps_wf(function.context, closure.context);
                lemma_arguments_are_well_behaved(arguments, closure.args, 0, scope, made, depth);
                let bound = bind_arguments(arguments, closure.args, 0, scope, made, depth);
                if bound.result is Ok {
                    lemma_evaluation_is_well_behaved(
                        closure.body,
                        bound.context.at(scope),
                        depth,
                    );
                }
            }
        },
        _ => {},
    }
}

/// The same of the arguments of a call, bound in a scope that exists.
pub proof fn lemma_arguments_are_well_behaved(
    arguments: Seq<TermView>,
    parameters: Seq<ParameterView>,
    from: nat,
    scope: nat,
    context: ContextView,
    depth: nat,
)
    requires
        context.wf(),
        scope < context.scopes.len(),
    ensures
        well_behaved(context, bind_arguments(arguments, parameters, from, scope, context, depth)),
    decreases depth, 1nat, arguments.len() - from,
{
    if from < arguments.len() {
        lemma_evaluation_is_well_behaved(arguments[from as int], context, depth);
        let argument = evaluate(arguments[from as int], context, depth);
        match argument.result {
            Ok(value) => {
                let name = parameters[from as int].text;
                lemma_bind_in_keeps_wf(argument.context, scope, name, value);
                lemma_arguments_are_well_behaved(
                    arguments,
                    parameters,
                    from + 1,
                    scope,
                    argument.context.bind_in(scope, name, value),
                    depth,
                );
            },
            Err(_) => {},
        }
    }
}

/// Evaluates `term` in `context`, with at most `depth` evaluations nested in one
/// another, and gives its value or the first error. What the evaluation binds and
/// prints is left in `context`, also where it ends in an error.
pub fn eval(term: &Term, context: &mut Context, depth: usize) -> (r: Result<Output, Error>)
    requires
        old(context).wf(),
    ensures
        final(context).wf(),
        outcome(r, final(context)@) == evaluate(term@, old(context)@, depth as nat),
        well_behaved(old(context)@, outcome(r, final(context)@)),
    decreases depth, 1nat,
{
    proof {
        context.lemma_wf_view();
    }
    if depth == 0 {
        return Err(Error::new("Maximum evaluation depth exceeded", term.location().clone()));
    }
    match term {
        Term::Bool(x) => Ok(Output::Bool(x.value)),
        Term::Int(x) => Ok(Output::Int(from_i32(x.value))),
        Term::Str(x) => Ok(Output::Str(x.value.clone())),
        Term::Print(x) => eval_print(x, context, depth),
        Term::Binary(x) => eval_binary(x, context, depth),
        Term::If(x) => eval_if(x, context, depth),
        Term::Tuple(x) => eval_tuple(x, context, depth),
        Term::First(x) => eval_first(x, context, depth),
        Term::Second(x) => eval_second(x, context, depth),
        Term::Var(x) => eval_var(x, context, depth),
        Term::Let(x) => eval_let(x, context, depth),
        Term::Function(x) => Ok(
            Output::Closure(
                Closure {
                    body: (*x.value).clone(),
                    args: clone_parameters(&x.parameters),
                    context: context.current(),
                },
            ),
        ),
        Term::Call(x) => eval_call(x, context, depth),
    }
}

/// `Print`: evaluates the operand, adds its text to the printed lines and gives
/// the void value.
fn eval_print(x: &Print, context: &mut Context, depth: usize) -> (r: Result<Output, Error>)
    requires
        old(context).wf(),
        depth > 0,
    ensures
        final(context).wf(),
        outcome(r, final(context)@) == evaluate(Term::Print(*x)@, old(context)@, depth as nat),
        well_behaved(old(context)@, outcome(r, final(context)@)),
    decreases depth, 0nat,
{
    match eval(&x.value, context, depth - 1) {
        Ok(value) => {
            context.print(value.to_string());
            Ok(Output::Void)
        },
        Err(error) => Err(error),
    }
}

/// A binary operator: evaluates the left operand, then the right one, both in
/// every case, and then applies the operator.
fn eval_binary(x: &Binary, context: &mut Context, depth: usize) -> (r: Result<Output, Error>)
    requires
        old(context).wf(),
        depth > 0,
    ensures
        final(context).wf(),
        outcome(r, final(context)@) == evaluate(Term::Binary(*x)@, old(context)@, depth as nat),
        well_behaved(old(context)@, outcome(r, final(context)@)),
    decreases depth, 0nat,
{
    match eval(&x.lhs, context, depth - 1) {
        Ok(a) => {
            let ghost middle = context@.scopes.len();
            match eval(&x.rhs, context, depth - 1) {
                Ok(b) => {
                    proof {
                        lemma_handles_below_grows(a@, middle, context@.scopes.len());
                        lemma_binary_result_handles(
                            x.op,
                            a@,
                            b@,
                            x.location@,
                            context@.scopes.len(),
                        );
                    }
                    apply_binary(x.op, a, b, &x.location)
                },
                Err(error) => Err(error),
            }
        },
        Err(error) => Err(error),
    }
}

/// `If`: evaluates the condition, which must give a boolean, and then the
/// branch that it chooses.
fn eval_if(x: &If, context: &mut Context, depth: usize) -> (r: Result<Output, Error>)
    requires
        old(context).wf(),
        depth > 0,
    ensures
        final(context).wf(),
        outcome(r, final(context)@) == evaluate(Term::If(*x)@, old(context)@, depth as nat),
        well_behaved(old(context)@, outcome(r, final(context)@)),
    decreases depth, 0nat,
{
    let If { condition, then: consequent, otherwise, location } = x;
    match eval(condition, context, depth - 1) {
        Ok(Output::Bool(chosen)) => {
            if chosen {
                eval(consequent, context, depth - 1)
            } else {
                eval(otherwise, context, depth - 1)
            }
        },
        Ok(_) => Err(
            Error::new(
                "Condition expression not resolve to a boolean primitive",
                location.clone(),
            ),
        ),
        Err(error) => Err(error),
    }
}

/// `Tuple`: evaluates the first part, then the second, and pairs them.
fn eval_tuple(x: &Tuple, context: &mut Context, depth: usize) -> (r: Result<Output, Error>)
    requires
        old(context).wf(),
        depth > 0,
    ensures
        final(context).wf(),
        outcome(r, final(context)@) == evaluate(Term::Tuple(*x)@, old(context)@, depth as nat),
        well_behaved(old(context)@, outcome(r, final(context)@)),
    decreases depth, 0nat,
{
    match eval(&x.first, context, depth - 1) {
        Ok(a) => {
            let ghost middle = context@.scopes.len();
            match eval(&x.second, context, depth - 1) {
                Ok(b) => {
                    proof {
                        lemma_handles_below_grows(a@, middle, context@.scopes.len());
                    }
                    Ok(Output::Tuple((Box::new(a), Box::new(b))))
                },
                Err(error) => Err(error),
            }
        },
        Err(error) => Err(error),
    }
}

/// `First`: evaluates the operand, which must give a pair, and takes its first part.
fn eval_first(x: &First, context: &mut Context, depth: usize) -> (r: Result<Output, Error>)
    requires
        old(context).wf(),
        depth > 0,
    ensures
        final(context).wf(),
        outcome(r, final(context)@) == evaluate(Term::First(*x)@, old(context)@, depth as nat),
        well_behaved(old(context)@, outcome(r, final(context)@)),
    decreases depth, 0nat,
{
    match eval(&x.value, context, depth - 1) {
        Ok(Output::Tuple(pair)) => Ok(*pair.0),
        Ok(_) => Err(Error::new("Cannot access first of a non tuple argument", x.location.clone())),
        Err(error) => Err(error),
    }
}

/// `Second`: evaluates the operand, which must give a pair, and takes its second part.
fn eval_second(x: &Second, context: &mut Context, depth: usize) -> (r: Result<Output, Error>)
    requires
        old(context).wf(),
        depth > 0,
    ensures
        final(context).wf(),
        outcome(r, final(context)@) == evaluate(Term::Second(*x)@, old(context)@, depth as nat),
        well_behaved(old(context)@, outcome(r, final(context)@)),
    decreases depth, 0nat,
{
    match eval(&x.value, context, depth - 1) {
        Ok(Output::Tuple(pair)) => Ok(*pair.1),
        Ok(_) => Err(
            Error::new("Cannot access second of a non tuple argument", x.location.clone()),
        ),
        Err(error) => Err(error),
    }
}

/// `Var`: the value that the name has, seen from the current scope.
fn eval_var(x: &Var, context: &Context, depth: usize) -> (r: Result<Output, Error>)
    requires
        context.wf(),
        depth > 0,
    ensures
        outcome(r, context@) == evaluate(Term::Var(*x)@, context@, depth as nat),
        well_behaved(context@, outcome(r, context@)),
{
    proof {
        context.lemma_wf_view();
    }
    match context.resolve(&x.text) {
        Some(value) => Ok(value),
        None => {
            let mut message = "Variable ".to_owned();
            message.append(x.text.as_str());
            message.append(" is not declared");
            Err(Error::new(message.as_str(), x.location.clone()))
        },
    }
}

/// `Let`: evaluates the value, binds it to the name in the current scope, and
/// evaluates the rest there. A closure is bound as one of the current scope.
fn eval_let(x: &Let, context: &mut Context, depth: usize) -> (r: Result<Output, Error>)
    requires
        old(context).wf(),
        depth > 0,
    ensures
        final(context).wf(),
        outcome(r, final(context)@) == evaluate(Term::Let(*x)@, old(context)@, depth as nat),
        well_behaved(old(context)@, outcome(r, final(context)@)),
    decreases depth, 0nat,
{
    match eval(&x.value, context, depth - 1) {
        Ok(value) => {
            let bound = match value {
                Output::Closure(y) => Output::Closure(
                    Closure { body: y.body, args: y.args, context: context.current() },
                ),
                y => y,
            };
            proof {
                context.lemma_wf_view();
            }
            context.bind(x.name.text.clone(), bound);
            eval(&x.next, context, depth - 1)
        },
        Err(error) => Err(error),
    }
}

/// `Call`: a call of the reserved name with one argument that gives an integer
/// is answered by the fast Fibonacci routine; every other call is a call of a
/// function of the program.
fn eval_call(x: &Call, context: &mut Context, depth: usize) -> (r: Result<Output, Error>)
    requires
        old(context).wf(),
        depth > 0,
    ensures
        final(context).wf(),
        outcome(r, final(context)@) == evaluate(Term::Call(*x)@, old(context)@, depth as nat),
        well_behaved(old(context)@, outcome(r, final(context)@)),
    decreases depth, 0nat,
{
    let fast = match &*x.callee {
        Term::Var(z) => z.text == "fib".to_owned() && x.arguments.len() == 1,
        _ => false,
    };
    assert(fast == is_fast_call(x.callee@, terms_view(x.arguments@)));
    if fast {
        assert(terms_view(x.arguments@)[0] == x.arguments[0]@);
        match eval(&x.arguments[0], context, depth - 1) {
            Ok(Output::Int(nth)) => Ok(Output::Int(fast_fib(nth))),
            Ok(_) => call(x, context, depth - 1),
            Err(error) => Err(error),
        }
    } else {
        call(x, context, depth - 1)
    }
}

/// Calls a function of the program: evaluates the callee, makes the scope of the
/// call inside the scope that the closure captured, binds the arguments there and
/// evaluates the body in it.
#[verifier::loop_isolation(false)]
fn call(x: &Call, context: &mut Context, depth: usize) -> (r: Result<Output, Error>)
    requires
        old(context).wf(),
    ensures
        final(context).wf(),
        outcome(r, final(context)@) == apply(
            x.callee@,
            terms_view(x.arguments@),
            x.location@,
            old(context)@,
            depth as nat,
        ),
        well_behaved(old(context)@, outcome(r, final(context)@)),
    decreases depth, 2nat,
{
    let caller = context.current();
    match eval(&x.callee, context, depth) {
        Ok(Output::Closure(closure)) => {
            if closure.args.len() != x.arguments.len() {
                return Err(
                    Error::new(
                        "Arguments declaration differs parameters declaration",
                        x.location.clone(),
                    ),
                );
            }
            let ghost made = context@.child_of(closure.context as nat);
            let scope = context.child_of(closure.context);
            let mut i: usize = 0;
            while i < x.arguments.len()
                invariant
                    context.wf(),
                    i <= x.arguments.len(),
                    closure.args.len() == x.arguments.len(),
                    context@.current == caller,
                    scope < context@.scopes.len(),
                    old(context)@.scopes.len() <= context@.scopes.len(),
                    old(context)@.printed.len() <= context@.printed.len(),
                    context@.printed.subrange(0, old(context)@.printed.len() as int)
                        =~= old(context)@.printed,
                    bind_arguments(
                        terms_view(x.arguments@),
                        closure@.args,
                        i as nat,
                        scope as nat,
                        context@,
                        depth as nat,
                    ) == bind_arguments(
                        terms_view(x.arguments@),
                        closure@.args,
                        0,
                        scope as nat,
                        made,
                        depth as nat,
                    ),
                decreases x.arguments.len() - i,
            {
                assert(terms_view(x.arguments@)[i as int] == x.arguments[i as int]@);
                assert(closure@.args[i as int] == closure.args[i as int]@);
                match eval(&x.arguments[i], context, depth) {
                    Ok(value) => {
                        context.bind_in(scope, closure.args[i].text.clone(), value);
                    },
                    Err(error) => {
                        return Err(error);
                    },
                }
                i += 1;
            }
            context.enter(scope);
            let result = eval(&closure.body, context, depth);
            context.enter(caller);
            result
        },
        Ok(_) => Err(Error::new("Calling a not callable", x.location.clone())),
        Err(error) => Err(error),
    }
}

} // verus!
