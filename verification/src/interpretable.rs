//! What all pieces of a program that can be interpreted have in common.

use vstd::prelude::*;
use crate::ast::{
    Block, Class, Declaration, Directive, Expression, Function, FunctionCall, Namespace, Statement,
    UseDirective, Variable,
};
use crate::completion::{done, Completion, Flow, HostAnswer, Interrupt};
use crate::engine::{Engine, State};
use crate::interpreter::{agrees, interpret_variables};
use crate::scope::DeclStackItem;
use crate::semantics;
use crate::semantics::Step;
use crate::value::TValue;

verus! {

/// A piece of a program that the engine can interpret.
pub trait Interpretable {
    /// Whether the piece can be interpreted in the state: a declaration needs a scope to
    /// stand in.
    spec fn ready<'a>(&'a self, state: State<'a>) -> bool;

    /// What the piece means: the state after it, and its result.
    spec fn meaning<'a>(
        &'a self,
        state: State<'a>,
        answers: Seq<HostAnswer<TValue>>,
        fuel: nat,
    ) -> Step<'a>;

    /// Interprets the piece.
    fn interpret<'a>(
        &'a self,
        engine: &mut Engine<'a>,
        answers: &Vec<HostAnswer<TValue>>,
        fuel: u64,
    ) -> (flow: Flow<'a, TValue>)
        requires
            old(engine)@.wf(),
            self.ready(old(engine)@),
        ensures
            final(engine)@.wf(),
            final(engine)@.depth() == old(engine)@.depth(),
            agrees(final(engine)@, flow, self.meaning(old(engine)@, answers@, fuel as nat)),
    ;
}

/// What making a declaration known means: the innermost scope gets it, unless the scope
/// declares the name already, which is a conflict.
pub open spec fn registering<'a>(
    identifier: &'a crate::ast::Identifier,
    item: DeclStackItem<'a>,
    state: State<'a>,
) -> Step<'a> {
    if state.declares_here(identifier.text()) {
        (state, Err(Interrupt::Conflict(identifier)))
    } else {
        (state.register(identifier.text(), item), done())
    }
}

impl Interpretable for Block {
    open spec fn ready<'a>(&'a self, state: State<'a>) -> bool {
        true
    }

    open spec fn meaning<'a>(
        &'a self,
        state: State<'a>,
        answers: Seq<HostAnswer<TValue>>,
        fuel: nat,
    ) -> Step<'a> {
        semantics::run_block(self, state, answers, fuel)
    }

    fn interpret<'a>(
        &'a self,
        engine: &mut Engine<'a>,
        answers: &Vec<HostAnswer<TValue>>,
        fuel: u64,
    ) -> (flow: Flow<'a, TValue>) {
        Block::interpret(self, engine, answers, fuel)
    }
}

impl Interpretable for Function {
    open spec fn ready<'a>(&'a self, state: State<'a>) -> bool {
        state.depth() > 0
    }

    open spec fn meaning<'a>(
        &'a self,
        state: State<'a>,
        answers: Seq<HostAnswer<TValue>>,
        fuel: nat,
    ) -> Step<'a> {
        registering(&self.identifier, DeclStackItem::Function(self), state)
    }

    fn interpret<'a>(
        &'a self,
        engine: &mut Engine<'a>,
        answers: &Vec<HostAnswer<TValue>>,
        fuel: u64,
    ) -> (flow: Flow<'a, TValue>) {
        match Function::interpret(self, engine) {
            Ok(_) => Ok(Completion::Normal(None)),
            Err(_) => Err(Interrupt::Conflict(&self.identifier)),
        }
    }
}

impl Interpretable for Class {
    open spec fn ready<'a>(&'a self, state: State<'a>) -> bool {
        state.depth() > 0
    }

    open spec fn meaning<'a>(
        &'a self,
        state: State<'a>,
        answers: Seq<HostAnswer<TValue>>,
        fuel: nat,
    ) -> Step<'a> {
        registering(&self.identifier, DeclStackItem::Class(self), state)
    }

    fn interpret<'a>(
        &'a self,
        engine: &mut Engine<'a>,
        answers: &Vec<HostAnswer<TValue>>,
        fuel: u64,
    ) -> (flow: Flow<'a, TValue>) {
        match Class::interpret(self, engine) {
            Ok(_) => Ok(Completion::Normal(None)),
            Err(_) => Err(Interrupt::Conflict(&self.identifier)),
        }
    }
}

impl Interpretable for Namespace {
    open spec fn ready<'a>(&'a self, state: State<'a>) -> bool {
        state.depth() > 0
    }

    open spec fn meaning<'a>(
        &'a self,
        state: State<'a>,
        answers: Seq<HostAnswer<TValue>>,
        fuel: nat,
    ) -> Step<'a> {
        registering(&self.identifier, DeclStackItem::Namespace(self), state)
    }

    fn interpret<'a>(
        &'a self,
        engine: &mut Engine<'a>,
        answers: &Vec<HostAnswer<TValue>>,
        fuel: u64,
    ) -> (flow: Flow<'a, TValue>) {
        match Namespace::interpret(self, engine) {
            Ok(_) => Ok(Completion::Normal(None)),
            Err(_) => Err(Interrupt::Conflict(&self.identifier)),
        }
    }
}

impl Interpretable for Vec<Variable> {
    open spec fn ready<'a>(&'a self, state: State<'a>) -> bool {
        state.depth() > 0
    }

    open spec fn meaning<'a>(
        &'a self,
        state: State<'a>,
        answers: Seq<HostAnswer<TValue>>,
        fuel: nat,
    ) -> Step<'a> {
        semantics::declare_variables(self, 0, state, answers, fuel)
    }

    fn interpret<'a>(
        &'a self,
        engine: &mut Engine<'a>,
        answers: &Vec<HostAnswer<TValue>>,
        fuel: u64,
    ) -> (flow: Flow<'a, TValue>) {
        interpret_variables(self, engine, answers, fuel)
    }
}

impl Interpretable for Declaration {
    open spec fn ready<'a>(&'a self, state: State<'a>) -> bool {
        state.depth() > 0
    }

    open spec fn meaning<'a>(
        &'a self,
        state: State<'a>,
        answers: Seq<HostAnswer<TValue>>,
        fuel: nat,
    ) -> Step<'a> {
        match self {
            Declaration::Variable(variables) => variables.meaning(state, answers, fuel),
            Declaration::Function(function) => function.meaning(state, answers, fuel),
            Declaration::Class(class) => class.meaning(state, answers, fuel),
            Declaration::Namespace(namespace) => namespace.meaning(state, answers, fuel),
        }
    }

    fn interpret<'a>(
        &'a self,
        engine: &mut Engine<'a>,
        answers: &Vec<HostAnswer<TValue>>,
        fuel: u64,
    ) -> (flow: Flow<'a, TValue>) {
        match self {
            Declaration::Variable(variables) => Interpretable::interpret(
                variables,
                engine,
                answers,
                fuel,
            ),
            Declaration::Function(function) => Interpretable::interpret(
                function,
                engine,
                answers,
                fuel,
            ),
            Declaration::Class(class) => Interpretable::interpret(class, engine, answers, fuel),
            Declaration::Namespace(namespace) => Interpretable::interpret(
                namespace,
                engine,
                answers,
                fuel,
            ),
        }
    }
}

impl Interpretable for UseDirective {
    open spec fn ready<'a>(&'a self, state: State<'a>) -> bool {
        true
    }

    open spec fn meaning<'a>(
        &'a self,
        state: State<'a>,
        answers: Seq<HostAnswer<TValue>>,
        fuel: nat,
    ) -> Step<'a> {
        semantics::import(self, state, answers)
    }

    fn interpret<'a>(
        &'a self,
        engine: &mut Engine<'a>,
        answers: &Vec<HostAnswer<TValue>>,
        fuel: u64,
    ) -> (flow: Flow<'a, TValue>) {
        UseDirective::interpret(self, engine, answers)
    }
}

impl Interpretable for Directive {
    open spec fn ready<'a>(&'a self, state: State<'a>) -> bool {
        true
    }

    open spec fn meaning<'a>(
        &'a self,
        state: State<'a>,
        answers: Seq<HostAnswer<TValue>>,
        fuel: nat,
    ) -> Step<'a> {
        match self {
            Directive::Use(directive) => directive.meaning(state, answers, fuel),
        }
    }

    fn interpret<'a>(
        &'a self,
        engine: &mut Engine<'a>,
        answers: &Vec<HostAnswer<TValue>>,
        fuel: u64,
    ) -> (flow: Flow<'a, TValue>) {
        match self {
            Directive::Use(directive) => Interpretable::interpret(
                directive,
                engine,
                answers,
                fuel,
            ),
        }
    }
}

impl Interpretable for Statement {
    open spec fn ready<'a>(&'a self, state: State<'a>) -> bool {
        true
    }

    open spec fn meaning<'a>(
        &'a self,
        state: State<'a>,
        answers: Seq<HostAnswer<TValue>>,
        fuel: nat,
    ) -> Step<'a> {
        semantics::run(self, state, answers, fuel)
    }

    fn interpret<'a>(
        &'a self,
        engine: &mut Engine<'a>,
        answers: &Vec<HostAnswer<TValue>>,
        fuel: u64,
    ) -> (flow: Flow<'a, TValue>) {
        Statement::interpret(self, engine, answers, fuel)
    }
}

impl Interpretable for Expression {
    open spec fn ready<'a>(&'a self, state: State<'a>) -> bool {
        true
    }

    open spec fn meaning<'a>(
        &'a self,
        state: State<'a>,
        answers: Seq<HostAnswer<TValue>>,
        fuel: nat,
    ) -> Step<'a> {
        semantics::evaluate(self, state, answers, fuel)
    }

    fn interpret<'a>(
        &'a self,
        engine: &mut Engine<'a>,
        answers: &Vec<HostAnswer<TValue>>,
        fuel: u64,
    ) -> (flow: Flow<'a, TValue>) {
        Expression::interpret(self, engine, answers, fuel)
    }
}

impl Interpretable for FunctionCall {
    open spec fn ready<'a>(&'a self, state: State<'a>) -> bool {
        true
    }

    open spec fn meaning<'a>(
        &'a self,
        state: State<'a>,
        answers: Seq<HostAnswer<TValue>>,
        fuel: nat,
    ) -> Step<'a> {
        semantics::evaluate_call(self, state, answers, fuel)
    }

    fn interpret<'a>(
        &'a self,
        engine: &mut Engine<'a>,
        answers: &Vec<HostAnswer<TValue>>,
        fuel: u64,
    ) -> (flow: Flow<'a, TValue>) {
        FunctionCall::interpret(self, engine, answers, fuel)
    }
}

} // verus!
