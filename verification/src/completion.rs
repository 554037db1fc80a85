//! How a statement ends, what the engine asks of its host, and what stops an interpretation.

use vstd::prelude::*;
use crate::ast::{BinaryOperator, Identifier, UseDirective};
use crate::error::Failure;
use crate::value::{TValue, Value};

verus! {

/// The outcome of one statement. Every outcome but `Normal` travels outwards until the
/// construct that owns it takes it up: a loop its `Break` and `Continue`, a call its `Return`,
/// a handler a `Throw`.
#[derive(Debug)]
pub enum Completion<V> {
    Normal(Option<V>),
    Break,
    Continue,
    Return(Option<V>),
    Throw(V),
}

/// What the engine leaves to its host.
#[derive(Debug)]
pub enum HostRequest<'a, V> {
    /// Arithmetic in which a real takes part. Both operands are numbers or reals.
    RealArithmetic { operator: BinaryOperator, left: V, right: V },
    /// A call of a function that the host has made known. The arguments come as an array.
    Call { name: &'a Identifier, arguments: V },
    /// An import.
    Import(&'a UseDirective),
}

/// What the host answers to a request.
#[derive(Debug)]
pub enum HostAnswer<V> {
    /// The result.
    Value(V),
    /// The host failed: the value is thrown in the program.
    Failure(V),
}

/// What ends an interpretation before its program has. No handler of the program sees it.
#[derive(Debug)]
pub enum Interrupt<'a, V> {
    /// The identifier is declared twice in one scope.
    Conflict(&'a Identifier),
    /// A `Break` or a `Continue` has left the body of a function: it stands in no loop.
    OutsideLoop,
    /// The budget of the interpretation is used up.
    Exhausted,
    /// The host has to answer this request first: the interpretation is to be run again with
    /// one more answer.
    Host(HostRequest<'a, V>),
}

/// The result of interpreting a piece of a program.
pub type Flow<'a, V> = Result<Completion<V>, Interrupt<'a, V>>;

impl View for Completion<TValue> {
    type V = Completion<Value>;

    open spec fn view(&self) -> Completion<Value> {
        match self {
            Completion::Normal(Some(value)) => Completion::Normal(Some(value@)),
            Completion::Normal(None) => Completion::Normal(None),
            Completion::Break => Completion::Break,
            Completion::Continue => Completion::Continue,
            Completion::Return(Some(value)) => Completion::Return(Some(value@)),
            Completion::Return(None) => Completion::Return(None),
            Completion::Throw(value) => Completion::Throw(value@),
        }
    }
}

impl<'a> View for HostRequest<'a, TValue> {
    type V = HostRequest<'a, Value>;

    open spec fn view(&self) -> HostRequest<'a, Value> {
        match self {
            HostRequest::RealArithmetic { operator, left, right } => HostRequest::RealArithmetic {
                operator: *operator,
                left: left@,
                right: right@,
            },
            HostRequest::Call { name, arguments } => HostRequest::Call {
                name: *name,
                arguments: arguments@,
            },
            HostRequest::Import(directive) => HostRequest::Import(*directive),
        }
    }
}

impl View for HostAnswer<TValue> {
    type V = HostAnswer<Value>;

    open spec fn view(&self) -> HostAnswer<Value> {
        match self {
            HostAnswer::Value(value) => HostAnswer::Value(value@),
            HostAnswer::Failure(value) => HostAnswer::Failure(value@),
        }
    }
}

impl<'a> View for Interrupt<'a, TValue> {
    type V = Interrupt<'a, Value>;

    open spec fn view(&self) -> Interrupt<'a, Value> {
        match self {
            Interrupt::Conflict(identifier) => Interrupt::Conflict(*identifier),
            Interrupt::OutsideLoop => Interrupt::OutsideLoop,
            Interrupt::Exhausted => Interrupt::Exhausted,
            Interrupt::Host(request) => Interrupt::Host(request@),
        }
    }
}

/// The model of a result of the engine.
pub open spec fn flow_view<'a>(flow: Flow<'a, TValue>) -> Flow<'a, Value> {
    match flow {
        Ok(completion) => Ok(completion@),
        Err(interrupt) => Err(interrupt@),
    }
}

/// The value of a result that is a value.
pub open spec fn value_of<'a>(flow: Flow<'a, Value>) -> Option<Value> {
    match flow {
        Ok(Completion::Normal(Some(value))) => Some(value),
        _ => None,
    }
}

/// The result that is a value.
pub open spec fn value<'a>(value: Value) -> Flow<'a, Value> {
    Ok(Completion::Normal(Some(value)))
}

/// The result of a statement that has run to its end.
pub open spec fn done<'a>() -> Flow<'a, Value> {
    Ok(Completion::Normal(None))
}

/// The result in which a failure is thrown.
pub open spec fn thrown<'a>(failure: Failure) -> Flow<'a, Value> {
    Ok(Completion::Throw(failure.thrown()))
}

} // verus!
