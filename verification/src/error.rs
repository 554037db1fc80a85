//! What can go wrong while a program is interpreted.

use vstd::prelude::*;
use crate::ast::Identifier;
use crate::value::{TValue, Value};

verus! {

/// The failures of the engine.
///
/// A conflict between declarations ends the interpretation and no program can catch it. The
/// others are raised as a thrown value where they happen, and a handler of the program may
/// catch them.
#[derive(Debug)]
pub enum InterpreterError {
    /// The identifier is already declared in the same scope.
    ConflictWithPreviousDeclaration(Identifier),
    /// The operator, named in the text, has no meaning for its operands.
    OperationNotPossible(String),
    /// A guard is no boolean, or what a loop goes through is no array.
    TypeMismatch,
    /// A name, an index, a key or a field leads to nothing.
    UndefinedReference,
    /// A member is not open to the code that asks for it.
    AccessViolation,
}

/// The model of an [`InterpreterError`].
pub enum Failure {
    ConflictWithPreviousDeclaration(Seq<char>),
    OperationNotPossible(Seq<char>),
    TypeMismatch,
    UndefinedReference,
    AccessViolation,
}

impl View for InterpreterError {
    type V = Failure;

    open spec fn view(&self) -> Failure {
        match self {
            InterpreterError::ConflictWithPreviousDeclaration(identifier) =>
                Failure::ConflictWithPreviousDeclaration(identifier.text()),
            InterpreterError::OperationNotPossible(operator) => Failure::OperationNotPossible(
                operator@,
            ),
            InterpreterError::TypeMismatch => Failure::TypeMismatch,
            InterpreterError::UndefinedReference => Failure::UndefinedReference,
            InterpreterError::AccessViolation => Failure::AccessViolation,
        }
    }
}

impl Failure {
    /// The value that a program sees when it catches the failure: the name of its kind.
    pub open spec fn thrown(self) -> Value {
        Value::String(
            match self {
                Failure::ConflictWithPreviousDeclaration(_) => "ConflictWithPreviousDeclaration"@,
                Failure::OperationNotPossible(_) => "OperationNotPossible"@,
                Failure::TypeMismatch => "TypeMismatch"@,
                Failure::UndefinedReference => "UndefinedReference"@,
                Failure::AccessViolation => "AccessViolation"@,
            },
        )
    }
}

impl InterpreterError {
    /// The value that a program sees when it catches the failure.
    pub fn thrown(&self) -> (value: TValue)
        ensures
            value@ == self@.thrown(),
    {
        let kind = match self {
            InterpreterError::ConflictWithPreviousDeclaration(_) =>
                "ConflictWithPreviousDeclaration",
            InterpreterError::OperationNotPossible(_) => "OperationNotPossible",
            InterpreterError::TypeMismatch => "TypeMismatch",
            InterpreterError::UndefinedReference => "UndefinedReference",
            InterpreterError::AccessViolation => "AccessViolation",
        };
        TValue::String(String::from_str(kind))
    }
}

} // verus!
