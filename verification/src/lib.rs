//! A tree-walking engine for a block-structured scripting language with lexical scopes,
//! namespaces and classes with single inheritance.
//!
//! A host hands the engine a syntax tree ([`ast`]). The engine runs it ([`interpreter`],
//! [`access`]) the way [`semantics`] says, on the values of [`value`] and [`operators`], with
//! the scopes of [`scope`], the state of [`engine`] and the classes of [`classes`]. How a
//! statement ends is in [`completion`], what can fail in [`error`]. [`laws`] holds what is
//! true of every program.
//!
//! The engine computes with integers only. Arithmetic on reals, the functions that the host
//! offers and imports are the host's: where the engine needs one of them, it takes the next
//! answer that the host has given, and where there is none it ends with the request
//! ([`completion::HostRequest`]). The host answers and runs the program again, so that a
//! program is a function of its text and of the answers of the host alone.
//!
//! The engine always ends: a budget bounds how deep the interpretation may nest and how
//! many rounds a loop may make.

use vstd::prelude::*;
use crate::ast::{
    Block, BlockItem, Declaration, Expression, FunctionCall, FunctionCallArgument, Identifier,
    Literal, Name, Statement, Variable,
};
use crate::completion::{Completion, HostAnswer, Interrupt};
use crate::engine::{names_view, Engine, State};
use crate::semantics::Ending;
use crate::value::{values_view, Value};

pub use crate::error::InterpreterError;
pub use crate::interpretable::Interpretable;
pub use crate::scope::DeclStackItem;
pub use crate::value::TValue;

pub mod access;
pub mod ast;
pub mod classes;
pub mod completion;
pub mod engine;
pub mod error;
pub mod interpretable;
pub mod interpreter;
pub mod laws;
pub mod operators;
pub mod scope;
pub mod semantics;
pub mod value;

verus! {

/// Runs a program that starts with nothing declared: what it prints, and how it ends.
///
/// `builtins` holds the names of the functions that the host offers, and `answers` what the
/// host has answered so far, in the order of the requests. Where the program needs an answer
/// that is not there, it ends with the request; the host then runs it again with that answer
/// added. `fuel` is the budget: it bounds how deep the interpretation may nest and how many
/// rounds a loop may make.
pub fn execute<'a>(
    program: &'a Block,
    builtins: Vec<String>,
    answers: &Vec<HostAnswer<TValue>>,
    fuel: u64,
) -> (r: (Vec<TValue>, Ending<'a, TValue>))
    ensures
        (values_view(r.0@), r.1@) == semantics::execute(
            program,
            names_view(builtins@),
            answers@,
            fuel as nat,
        ),
{
    let mut engine = Engine::with_builtins(builtins);
    let flow = program.interpret(&mut engine, answers, fuel);
    let ending = match flow {
        Ok(Completion::Return(Some(result))) => Ending::Finished(result),
        Ok(Completion::Return(None)) => Ending::Finished(TValue::Null),
        Ok(Completion::Normal(_)) => Ending::Finished(TValue::Null),
        Ok(Completion::Throw(thrown)) => Ending::Uncaught(thrown),
        Ok(Completion::Break) => Ending::Stopped(Interrupt::OutsideLoop),
        Ok(Completion::Continue) => Ending::Stopped(Interrupt::OutsideLoop),
        Err(interrupt) => Ending::Stopped(interrupt),
    };
    (engine.output, ending)
}

} // verus!

verus! {

/// Runs a small program that declares a variable and prints it, and hands out what it
/// printed.
pub fn run() -> (printed: Vec<TValue>)
    ensures
        values_view(printed@) == seq![Value::Number(69)],
{
    let program = Block(
        vec![
            BlockItem::Declaration(
                Declaration::Variable(
                    vec![
                        Variable {
                            identifier: Identifier(String::from_str("test")),
                            expression: Some(Expression::Literal(Literal::Integer(69))),
                        },
                    ],
                ),
            ),
            BlockItem::Statement(
                Statement::Expression(
                    Expression::FunctionCall(
                        FunctionCall {
                            expression: Box::new(
                                Expression::Name(
                                    Name(vec![Identifier(String::from_str("print"))]),
                                ),
                            ),
                            arguments: vec![
                                FunctionCallArgument {
                                    identifier: None,
                                    expression: Expression::Name(
                                        Name(vec![Identifier(String::from_str("test"))]),
                                    ),
                                },
                            ],
                        },
                    ),
                ),
            ),
        ],
    );
    let answers: Vec<HostAnswer<TValue>> = Vec::new();
    let builtins: Vec<String> = Vec::new();
    assert(names_view(builtins@) =~= Seq::empty());
    let (printed, ending) = execute(&program, builtins, &answers, 32);
    proof {
        lemma_run(&program);
    }
    printed
}

/// What the program of [`run`] does: it prints 69 and ends.
proof fn lemma_run(program: &Block)
    requires
        program.0@.len() == 2,
        program.0@[0] is Declaration,
        program.0@[0]->Declaration_0 is Variable,
        program.0@[0]->Declaration_0->Variable_0@.len() == 1,
        program.0@[0]->Declaration_0->Variable_0@[0].identifier.text() == "test"@,
        program.0@[0]->Declaration_0->Variable_0@[0].expression == Some(
            Expression::Literal(Literal::Integer(69)),
        ),
        program.0@[1] is Statement,
        program.0@[1]->Statement_0 is Expression,
        program.0@[1]->Statement_0->Expression_0 is FunctionCall,
        *program.0@[1]->Statement_0->Expression_0->FunctionCall_0.expression is Name,
        (*program.0@[1]->Statement_0->Expression_0->FunctionCall_0.expression)->Name_0.0@.len()
            == 1,
        (*program.0@[1]->Statement_0->Expression_0->FunctionCall_0.expression)->Name_0.0@[0].text()
            == "print"@,
        program.0@[1]->Statement_0->Expression_0->FunctionCall_0.arguments@.len() == 1,
        program.0@[1]->Statement_0->Expression_0->FunctionCall_0.arguments@[0].identifier is None,
        program.0@[1]->Statement_0->Expression_0->FunctionCall_0.arguments@[0].expression is Name,
        program.0@[1]->Statement_0->Expression_0->FunctionCall_0.arguments@[0].expression->Name_0.0@.len()
            == 1,
        program.0@[1]->Statement_0->Expression_0->FunctionCall_0.arguments@[0].expression->Name_0.0@[0].text()
            == "test"@,
    ensures
        semantics::execute(program, Seq::empty(), Seq::empty(), 32).0 == seq![Value::Number(69)],
        semantics::execute(program, Seq::empty(), Seq::empty(), 32).1 == Ending::<Value>::Finished(
            Value::Null,
        ),
{
    reveal_strlit("test");
    reveal_strlit("print");
    let answers = Seq::<HostAnswer<TValue>>::empty();
    let items = &program.0;
    let variables = &items@[0]->Declaration_0->Variable_0;
    let statement = &items@[1]->Statement_0;
    let expression = &statement->Expression_0;
    let call = &expression->FunctionCall_0;
    let argument = &call.arguments@[0].expression;
    let nothing = State { builtins: Seq::empty(), ..State::initial() };
    let opened = nothing.enter();
    let declared = opened.bind("test"@, Value::Number(69));
    let printed = declared.print(Value::Number(69));
    let one = seq![Value::Number(69)];

    assert(semantics::hoist(items, 2, opened) == (opened, None::<&Identifier>));
    assert(semantics::hoist(items, 1, opened) == (opened, None::<&Identifier>));
    assert(semantics::hoist(items, 0, opened) == (opened, None::<&Identifier>));

    let initializer = &variables@[0].expression->Some_0;
    assert(semantics::evaluate_literal(&initializer->Literal_0, opened, answers, 27) == (
        opened,
        completion::value(Value::Number(69)),
    ));
    assert(semantics::evaluate(initializer, opened, answers, 28) == (
        opened,
        completion::value(Value::Number(69)),
    ));
    assert(opened.variables.last() =~= Seq::empty());
    assert(!opened.binds_here("test"@));
    assert(semantics::declare_variables(variables, 1, declared, answers, 29) == (
        declared,
        completion::done(),
    ));
    assert(semantics::declare_variables(variables, 0, opened, answers, 29) == (
        declared,
        completion::done(),
    ));
    assert(semantics::run_item(&items@[0], opened, answers, 30) == (declared, completion::done()));

    let frame = declared.variables[0];
    assert(frame =~= seq![("test"@, Value::Number(69))]);
    assert(declared.variables =~= seq![frame]);
    assert(declared.declarations =~= seq![Seq::empty()]);
    assert("test"@.len() == 4);
    assert("print"@.len() == 5);
    assert(frame[0].0 != "print"@);
    assert(value::entry_index(frame.drop_first(), "print"@) is None);
    assert(value::entry_index(frame, "print"@) is None);
    assert(value::entry_index(frame, "test"@) == Some(0int));
    assert(scope::resolve(declared.variables.drop_last(), "print"@) is None);
    assert(scope::resolve(declared.variables, "print"@) is None);
    assert(scope::resolve(declared.variables, "test"@) == Some(0int));
    assert(scope::resolve(declared.declarations.drop_last(), "print"@) is None);
    assert(scope::resolve(declared.declarations, "print"@) is None);
    assert(declared.variable("test"@) == Some(Value::Number(69)));
    assert(declared.variable("print"@) is None);
    assert(declared.declaration("print"@) is None);
    assert(semantics::lookup("print"@, declared.declarations, 0, Seq::empty()) is None);

    let path = &argument->Name_0.0;
    let steps = semantics::member_steps(path, 1);
    assert(steps.len() == 0);
    assert(semantics::place_of_name(path, declared) == Ok::<
        semantics::Place<Value>,
        error::Failure,
    >((semantics::Root::Variable(&path@[0]), steps)));
    assert(semantics::read_path(Value::Number(69), steps, 0, declared) == Ok::<
        Value,
        error::Failure,
    >(Value::Number(69)));
    assert(semantics::name_value(path, declared) == completion::value(Value::Number(69)));
    assert(semantics::evaluate(argument, declared, answers, 24) == (
        declared,
        completion::value(Value::Number(69)),
    ));
    assert(Seq::<Value>::empty().push(Value::Number(69)) =~= one);
    assert(semantics::evaluate_arguments(&call.arguments, 1, one, declared, answers, 25) == (
        declared,
        Ok::<Seq<Value>, completion::Flow<Value>>(one),
    ));
    assert(semantics::evaluate_arguments(&call.arguments, 0, Seq::empty(), declared, answers, 25)
        == (declared, Ok::<Seq<Value>, completion::Flow<Value>>(one)));
    assert(semantics::print_all(one, 1, printed) == printed);
    assert(semantics::print_all(one, 0, declared) == printed);
    let callee = &(*call.expression)->Name_0.0@[0];
    assert(semantics::call_name(callee, call, declared, answers, 26) == (
        printed,
        completion::value(Value::Null),
    ));
    assert(semantics::evaluate_call(call, declared, answers, 27) == (
        printed,
        completion::value(Value::Null),
    ));
    assert(semantics::evaluate(expression, declared, answers, 28) == (
        printed,
        completion::value(Value::Null),
    ));
    assert(semantics::run(statement, declared, answers, 29) == (printed, completion::done()));
    assert(semantics::run_item(&items@[1], declared, answers, 30) == (printed, completion::done()));
    assert(semantics::run_items(items, 2, printed, answers, 31) == (printed, completion::done()));
    assert(semantics::run_items(items, 1, declared, answers, 31) == (printed, completion::done()));
    assert(semantics::run_items(items, 0, opened, answers, 31) == (printed, completion::done()));
    assert(semantics::run_block(program, nothing, answers, 32) == (
        printed.leave(),
        completion::done(),
    ));
    assert(printed.leave().output =~= one);
}

} // verus!
