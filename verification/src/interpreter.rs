//! The engine that runs a program: for each piece of the syntax tree a function that does
//! what [`crate::semantics`] says the piece means.

use vstd::prelude::*;
use crate::access::{
    ask, combining, enter_call, first_of, instance_chain, item_of, leave_call, lineage_of, lookup,
    member_of, name_value, names_of, offers, operate, place_arguments, place_of_name, place_view,
    print_all, qualified, read_path, root_value, set_entry, set_field, shared_key, slots_view,
    throw, write_path, Source,
};
use crate::ast::{
    Assignment, BinaryOperation, BinaryOperator, Block, BlockItem, Class, ClassItem, Declaration,
    Directive, Expression, ForLoop, ForLoopVariable, Function, FunctionCall, FunctionCallArgument,
    Group, Identifier, ItemAccess, LeftHandSide, Literal, MemberAccess, Name, Namespace, Parameter,
    Statement, UseDirective, Variable, WhileLoop,
};
use crate::classes::{find_lineage_method, is_allowed, new_fields};
use crate::completion::{flow_view, value, Completion, Flow, HostAnswer, HostRequest, Interrupt};
use crate::engine::{ClassRef, Engine, Instance, State};
use crate::error::{Failure, InterpreterError};
use crate::scope::DeclStackItem;
use crate::semantics;
use crate::semantics::{path_view, Place, Root, Selector};
use crate::value::{
    entries_view, lemma_array_view, lemma_dictionary_view, values_view, TValue, Value,
};

verus! {

/// Whether the engine and the result it gave are what the meaning of the piece says.
pub open spec fn agrees<'a>(
    engine: State<'a>,
    flow: Flow<'a, TValue>,
    step: semantics::Step<'a>,
) -> bool {
    engine == step.0 && flow_view(flow) == step.1
}

/// Whether the engine and the values it gave are what the meaning of the pieces says.
pub open spec fn matches_values<'a>(
    engine: State<'a>,
    result: Result<Vec<TValue>, Flow<'a, TValue>>,
    step: (State<'a>, Result<Seq<Value>, Flow<'a, Value>>),
) -> bool {
    engine == step.0 && match result {
        Ok(values) => step.1 == Ok::<Seq<Value>, Flow<'a, Value>>(values_view(values@)),
        Err(stopped) => step.1 == Err::<Seq<Value>, Flow<'a, Value>>(flow_view(stopped)),
    }
}

impl Function {
    /// Makes the function known in the innermost scope. Fails where that scope declares the
    /// name already.
    pub fn interpret<'a>(&'a self, engine: &mut Engine<'a>) -> (r: Result<(), InterpreterError>)
        requires
            old(engine)@.wf(),
            old(engine)@.depth() > 0,
        ensures
            final(engine)@.wf(),
            r is Err <==> old(engine)@.declares_here(self.identifier.text()),
            match r {
                Ok(_) => final(engine)@ == old(engine)@.register(
                    self.identifier.text(),
                    DeclStackItem::Function(self),
                ),
                Err(error) => final(engine)@ == old(engine)@ && error
                    == InterpreterError::ConflictWithPreviousDeclaration(self.identifier),
            },
    {
        engine.register(&self.identifier, DeclStackItem::Function(self))
    }
}

impl Class {
    /// Makes the class known in the innermost scope. Fails where that scope declares the name
    /// already.
    pub fn interpret<'a>(&'a self, engine: &mut Engine<'a>) -> (r: Result<(), InterpreterError>)
        requires
            old(engine)@.wf(),
            old(engine)@.depth() > 0,
        ensures
            final(engine)@.wf(),
            r is Err <==> old(engine)@.declares_here(self.identifier.text()),
            match r {
                Ok(_) => final(engine)@ == old(engine)@.register(
                    self.identifier.text(),
                    DeclStackItem::Class(self),
                ),
                Err(error) => final(engine)@ == old(engine)@ && error
                    == InterpreterError::ConflictWithPreviousDeclaration(self.identifier),
            },
    {
        engine.register(&self.identifier, DeclStackItem::Class(self))
    }
}

impl Namespace {
    /// Makes the namespace known in the innermost scope. Fails where that scope declares the
    /// name already.
    pub fn interpret<'a>(&'a self, engine: &mut Engine<'a>) -> (r: Result<(), InterpreterError>)
        requires
            old(engine)@.wf(),
            old(engine)@.depth() > 0,
        ensures
            final(engine)@.wf(),
            r is Err <==> old(engine)@.declares_here(self.identifier.text()),
            match r {
                Ok(_) => final(engine)@ == old(engine)@.register(
                    self.identifier.text(),
                    DeclStackItem::Namespace(self),
                ),
                Err(error) => final(engine)@ == old(engine)@ && error
                    == InterpreterError::ConflictWithPreviousDeclaration(self.identifier),
            },
    {
        engine.register(&self.identifier, DeclStackItem::Namespace(self))
    }
}

/// Makes the functions, classes and namespaces among the items known in the innermost scope,
/// before any of the items runs. Stops at the first whose name the scope has already, and
/// hands out its identifier.
#[verifier::loop_isolation(false)]
pub fn hoist<'a>(items: &'a Vec<BlockItem>, engine: &mut Engine<'a>) -> (conflict: Option<
    &'a Identifier,
>)
    requires
        old(engine)@.wf(),
        old(engine)@.depth() > 0,
    ensures
        final(engine)@.wf(),
        final(engine)@.depth() == old(engine)@.depth(),
        (final(engine)@, conflict) == semantics::hoist(items, 0, old(engine)@),
{
    let mut i: usize = 0;
    while i < items.len()
        invariant
            i <= items@.len(),
            engine@.wf(),
            engine@.depth() == old(engine)@.depth(),
            semantics::hoist(items, 0, old(engine)@) == semantics::hoist(items, i as int, engine@),
        decreases items@.len() - i,
    {
        match &items[i] {
            BlockItem::Declaration(Declaration::Function(function)) => {
                if function.interpret(engine).is_err() {
                    return Some(&function.identifier);
                }
            },
            BlockItem::Declaration(Declaration::Class(class)) => {
                if class.interpret(engine).is_err() {
                    return Some(&class.identifier);
                }
            },
            BlockItem::Declaration(Declaration::Namespace(namespace)) => {
                if namespace.interpret(engine).is_err() {
                    return Some(&namespace.identifier);
                }
            },
            _ => {},
        }
        i += 1;
    }
    None
}

impl UseDirective {
    /// Hands the import to the host.
    pub fn interpret<'a>(
        &'a self,
        engine: &mut Engine<'a>,
        answers: &Vec<HostAnswer<TValue>>,
    ) -> (flow: Flow<'a, TValue>)
        requires
            old(engine)@.wf(),
        ensures
            final(engine)@.wf(),
            final(engine)@.depth() == old(engine)@.depth(),
            agrees(final(engine)@, flow, semantics::import(self, old(engine)@, answers@)),
    {
        match ask(HostRequest::Import(self), engine, answers) {
            Ok(HostAnswer::Value(_)) => Ok(Completion::Normal(None)),
            Ok(HostAnswer::Failure(failure)) => Ok(Completion::Throw(failure)),
            Err(interrupt) => Err(interrupt),
        }
    }
}

} // verus!

verus! {

impl Expression {
    /// Evaluates the expression.
    pub fn interpret<'a>(
        &'a self,
        engine: &mut Engine<'a>,
        answers: &Vec<HostAnswer<TValue>>,
        fuel: u64,
    ) -> (flow: Flow<'a, TValue>)
        requires
            old(engine)@.wf(),
        ensures
            final(engine)@.wf(),
            final(engine)@.depth() == old(engine)@.depth(),
            agrees(
                final(engine)@,
                flow,
                semantics::evaluate(self, old(engine)@, answers@, fuel as nat),
            ),
        decreases fuel, 0nat,
    {
        if fuel == 0 {
            return Err(Interrupt::Exhausted);
        }
        let fuel = fuel - 1;
        match self {
            Expression::Literal(literal) => literal.interpret(engine, answers, fuel),
            Expression::Group(Group::Rounded(inner)) => {
                let inner: &'a Expression = &**inner;
                inner.interpret(engine, answers, fuel)
            },
            Expression::Group(Group::Square(inner)) => {
                let inner: &'a Expression = &**inner;
                inner.interpret(engine, answers, fuel)
            },
            Expression::Group(Group::Curly(inner)) => {
                let inner: &'a Expression = &**inner;
                inner.interpret(engine, answers, fuel)
            },
            Expression::UnaryOperation(operation) => {
                let inner: &'a Expression = &*operation.expression;
                match inner.interpret(engine, answers, fuel) {
                    Ok(Completion::Normal(Some(found))) => match found.unary_operate(
                        &operation.operator,
                    ) {
                        Ok(result) => Ok(Completion::Normal(Some(result))),
                        Err(error) => throw(error),
                    },
                    other => other,
                }
            },
            Expression::BinaryOperation(operation) => operation.interpret(engine, answers, fuel),
            Expression::FunctionCall(call) => call.interpret(engine, answers, fuel),
            Expression::ItemAccess(access) => {
                let set: &'a Expression = &*access.set;
                let index: &'a Expression = &*access.index;
                match set.interpret(engine, answers, fuel) {
                    Ok(Completion::Normal(Some(container))) => match index.interpret(
                        engine,
                        answers,
                        fuel,
                    ) {
                        Ok(Completion::Normal(Some(at))) => match item_of(&container, &at) {
                            Ok(found) => Ok(Completion::Normal(Some(found))),
                            Err(error) => throw(error),
                        },
                        other => other,
                    },
                    other => other,
                }
            },
            Expression::MemberAccess(access) => {
                let inner: &'a Expression = &*access.expression;
                match inner.interpret(engine, answers, fuel) {
                    Ok(Completion::Normal(Some(container))) => match member_of(
                        &container,
                        &access.identifier,
                        engine,
                    ) {
                        Ok(found) => Ok(Completion::Normal(Some(found))),
                        Err(error) => throw(error),
                    },
                    other => other,
                }
            },
            Expression::Name(name) => name_value(&name.0, engine),
        }
    }
}

impl Literal {
    /// Evaluates the literal.
    pub fn interpret<'a>(
        &'a self,
        engine: &mut Engine<'a>,
        answers: &Vec<HostAnswer<TValue>>,
        fuel: u64,
    ) -> (flow: Flow<'a, TValue>)
        requires
            old(engine)@.wf(),
        ensures
            final(engine)@.wf(),
            final(engine)@.depth() == old(engine)@.depth(),
            agrees(
                final(engine)@,
                flow,
                semantics::evaluate_literal(self, old(engine)@, answers@, fuel as nat),
            ),
        decreases fuel, 0nat,
    {
        if fuel == 0 {
            return Err(Interrupt::Exhausted);
        }
        let fuel = fuel - 1;
        match self {
            Literal::Null => Ok(Completion::Normal(Some(TValue::Null))),
            Literal::Boolean(b) => Ok(Completion::Normal(Some(TValue::Boolean(*b)))),
            Literal::Integer(n) => Ok(Completion::Normal(Some(TValue::Number(*n)))),
            Literal::Real(bits) => Ok(Completion::Normal(Some(TValue::Real(*bits)))),
            Literal::String(text) => Ok(Completion::Normal(Some(TValue::String(text.clone())))),
            Literal::Array(items) => match interpret_all(items, engine, answers, fuel) {
                Ok(values) => {
                    proof {
                        lemma_array_view(values);
                    }
                    Ok(Completion::Normal(Some(TValue::Array(values))))
                },
                Err(stopped) => stopped,
            },
            Literal::Dictionary(entries) => match interpret_entries(
                entries,
                engine,
                answers,
                fuel,
            ) {
                Ok(found) => {
                    proof {
                        lemma_dictionary_view(found);
                    }
                    Ok(Completion::Normal(Some(TValue::Dictionary(found))))
                },
                Err(stopped) => stopped,
            },
            Literal::Lambda => throw(InterpreterError::TypeMismatch),
        }
    }
}

/// Evaluates the expressions in order, up to the first that gives no value.
#[verifier::loop_isolation(false)]
pub fn interpret_all<'a>(
    expressions: &'a Vec<Expression>,
    engine: &mut Engine<'a>,
    answers: &Vec<HostAnswer<TValue>>,
    fuel: u64,
) -> (r: Result<Vec<TValue>, Flow<'a, TValue>>)
    requires
        old(engine)@.wf(),
    ensures
        final(engine)@.wf(),
        final(engine)@.depth() == old(engine)@.depth(),
        matches_values(
            final(engine)@,
            r,
            semantics::evaluate_all(
                expressions,
                0,
                Seq::empty(),
                old(engine)@,
                answers@,
                fuel as nat,
            ),
        ),
    decreases fuel, expressions@.len(),
{
    let mut values: Vec<TValue> = Vec::new();
    let mut i: usize = 0;
    assert(values_view(values@) =~= Seq::empty());
    while i < expressions.len()
        invariant
            i <= expressions@.len(),
            engine@.wf(),
            engine@.depth() == old(engine)@.depth(),
            semantics::evaluate_all(
                expressions,
                0,
                Seq::empty(),
                old(engine)@,
                answers@,
                fuel as nat,
            ) == semantics::evaluate_all(
                expressions,
                i as int,
                values_view(values@),
                engine@,
                answers@,
                fuel as nat,
            ),
        decreases expressions@.len() - i,
    {
        if fuel == 0 {
            return Err(Err(Interrupt::Exhausted));
        }
        let ghost before = values_view(values@);
        match expressions[i].interpret(engine, answers, fuel - 1) {
            Ok(Completion::Normal(Some(found))) => {
                values.push(found);
                assert(values_view(values@) =~= before.push(found@));
            },
            other => {
                return Err(other);
            },
        }
        i += 1;
    }
    Ok(values)
}

/// Evaluates the entries of a dictionary literal in order, up to the first that gives no
/// value.
#[verifier::loop_isolation(false)]
pub fn interpret_entries<'a>(
    entries: &'a Vec<(String, Expression)>,
    engine: &mut Engine<'a>,
    answers: &Vec<HostAnswer<TValue>>,
    fuel: u64,
) -> (r: Result<Vec<(String, TValue)>, Flow<'a, TValue>>)
    requires
        old(engine)@.wf(),
    ensures
        final(engine)@.wf(),
        final(engine)@.depth() == old(engine)@.depth(),
        final(engine)@ == semantics::evaluate_entries(
            entries,
            0,
            Seq::empty(),
            old(engine)@,
            answers@,
            fuel as nat,
        ).0,
        match r {
            Ok(found) => semantics::evaluate_entries(
                entries,
                0,
                Seq::empty(),
                old(engine)@,
                answers@,
                fuel as nat,
            ).1 == Ok::<Seq<(Seq<char>, Value)>, Flow<'a, Value>>(entries_view(found@)),
            Err(stopped) => semantics::evaluate_entries(
                entries,
                0,
                Seq::empty(),
                old(engine)@,
                answers@,
                fuel as nat,
            ).1 == Err::<Seq<(Seq<char>, Value)>, Flow<'a, Value>>(flow_view(stopped)),
        },
    decreases fuel, entries@.len(),
{
    let mut found: Vec<(String, TValue)> = Vec::new();
    let mut i: usize = 0;
    assert(entries_view(found@) =~= Seq::empty());
    while i < entries.len()
        invariant
            i <= entries@.len(),
            engine@.wf(),
            engine@.depth() == old(engine)@.depth(),
            semantics::evaluate_entries(
                entries,
                0,
                Seq::empty(),
                old(engine)@,
                answers@,
                fuel as nat,
            ) == semantics::evaluate_entries(
                entries,
                i as int,
                entries_view(found@),
                engine@,
                answers@,
                fuel as nat,
            ),
        decreases entries@.len() - i,
    {
        if fuel == 0 {
            return Err(Err(Interrupt::Exhausted));
        }
        match entries[i].1.interpret(engine, answers, fuel - 1) {
            Ok(Completion::Normal(Some(item))) => {
                set_entry(&mut found, &entries[i].0, item);
            },
            other => {
                return Err(other);
            },
        }
        i += 1;
    }
    Ok(found)
}

/// Evaluates the arguments of a call in the order in which they are written, up to the first
/// that gives no value.
#[verifier::loop_isolation(false)]
pub fn interpret_arguments<'a>(
    arguments: &'a Vec<FunctionCallArgument>,
    engine: &mut Engine<'a>,
    answers: &Vec<HostAnswer<TValue>>,
    fuel: u64,
) -> (r: Result<Vec<TValue>, Flow<'a, TValue>>)
    requires
        old(engine)@.wf(),
    ensures
        final(engine)@.wf(),
        final(engine)@.depth() == old(engine)@.depth(),
        matches_values(
            final(engine)@,
            r,
            semantics::evaluate_arguments(
                arguments,
                0,
                Seq::empty(),
                old(engine)@,
                answers@,
                fuel as nat,
            ),
        ),
        r matches Ok(values) ==> values@.len() == arguments@.len(),
    decreases fuel, arguments@.len(),
{
    let mut values: Vec<TValue> = Vec::new();
    let mut i: usize = 0;
    assert(values_view(values@) =~= Seq::empty());
    while i < arguments.len()
        invariant
            i <= arguments@.len(),
            values@.len() == i,
            engine@.wf(),
            engine@.depth() == old(engine)@.depth(),
            semantics::evaluate_arguments(
                arguments,
                0,
                Seq::empty(),
                old(engine)@,
                answers@,
                fuel as nat,
            ) == semantics::evaluate_arguments(
                arguments,
                i as int,
                values_view(values@),
                engine@,
                answers@,
                fuel as nat,
            ),
        decreases arguments@.len() - i,
    {
        if fuel == 0 {
            return Err(Err(Interrupt::Exhausted));
        }
        let ghost before = values_view(values@);
        match arguments[i].expression.interpret(engine, answers, fuel - 1) {
            Ok(Completion::Normal(Some(found))) => {
                values.push(found);
                assert(values_view(values@) =~= before.push(found@));
            },
            other => {
                return Err(other);
            },
        }
        i += 1;
    }
    Ok(values)
}

impl BinaryOperation {
    /// Evaluates the operation.
    pub fn interpret<'a>(
        &'a self,
        engine: &mut Engine<'a>,
        answers: &Vec<HostAnswer<TValue>>,
        fuel: u64,
    ) -> (flow: Flow<'a, TValue>)
        requires
            old(engine)@.wf(),
        ensures
            final(engine)@.wf(),
            final(engine)@.depth() == old(engine)@.depth(),
            agrees(
                final(engine)@,
                flow,
                semantics::evaluate_binary(self, old(engine)@, answers@, fuel as nat),
            ),
        decreases fuel, 0nat,
    {
        if fuel == 0 {
            return Err(Interrupt::Exhausted);
        }
        let fuel = fuel - 1;
        let left: &'a Expression = &*self.left;
        let right: &'a Expression = &*self.right;
        let conjunction = matches!(self.operator, BinaryOperator::And);
        let disjunction = matches!(self.operator, BinaryOperator::Or);
        match left.interpret(engine, answers, fuel) {
            Ok(Completion::Normal(Some(l))) => {
                if conjunction || disjunction {
                    match l {
                        TValue::Boolean(decided) => {
                            if decided == disjunction {
                                Ok(Completion::Normal(Some(TValue::Boolean(decided))))
                            } else {
                                match right.interpret(engine, answers, fuel) {
                                    Ok(Completion::Normal(Some(TValue::Boolean(r)))) => Ok(
                                        Completion::Normal(Some(TValue::Boolean(r))),
                                    ),
                                    Ok(Completion::Normal(Some(_))) => throw(
                                        crate::operators::binary_refusal(&self.operator),
                                    ),
                                    other => other,
                                }
                            }
                        },
                        _ => throw(crate::operators::binary_refusal(&self.operator)),
                    }
                } else {
                    match right.interpret(engine, answers, fuel) {
                        Ok(Completion::Normal(Some(r))) => operate(
                            l,
                            r,
                            self.operator,
                            engine,
                            answers,
                        ),
                        other => other,
                    }
                }
            },
            other => other,
        }
    }
}

impl FunctionCall {
    /// Evaluates the call.
    pub fn interpret<'a>(
        &'a self,
        engine: &mut Engine<'a>,
        answers: &Vec<HostAnswer<TValue>>,
        fuel: u64,
    ) -> (flow: Flow<'a, TValue>)
        requires
            old(engine)@.wf(),
        ensures
            final(engine)@.wf(),
            final(engine)@.depth() == old(engine)@.depth(),
            agrees(
                final(engine)@,
                flow,
                semantics::evaluate_call(self, old(engine)@, answers@, fuel as nat),
            ),
        decreases fuel, 0nat,
    {
        if fuel == 0 {
            return Err(Interrupt::Exhausted);
        }
        let fuel = fuel - 1;
        let callee: &'a Expression = &*self.expression;
        match callee {
            Expression::Name(name) => {
                if name.0.len() == 1 {
                    return call_name(&name.0[0], self, engine, answers, fuel);
                }
                match place_of_name(&name.0, engine) {
                    Err(InterpreterError::TypeMismatch) => call_qualified(
                        name,
                        self,
                        engine,
                        answers,
                        fuel,
                    ),
                    Err(error) => throw(error),
                    Ok((root, steps)) => if steps.len() == 0 {
                        throw(InterpreterError::TypeMismatch)
                    } else {
                        match root_value(&root, engine) {
                        None => throw(InterpreterError::UndefinedReference),
                        Some(start) => {
                            assert(path_view(steps@).take(steps@.len() - 1) =~= path_view(
                                steps@,
                            ).drop_last());
                            match read_path(start, &steps, steps.len() - 1, engine) {
                                Err(error) => throw(error),
                                Ok(target) => call_member(
                                    target,
                                    &name.0[name.0.len() - 1],
                                    self,
                                    engine,
                                    answers,
                                    fuel,
                                ),
                            }
                        },
                        }
                    },
                }
            },
            Expression::MemberAccess(access) => {
                let inner: &'a Expression = &*access.expression;
                match inner.interpret(engine, answers, fuel) {
                    Ok(Completion::Normal(Some(target))) => call_member(
                        target,
                        &access.identifier,
                        self,
                        engine,
                        answers,
                        fuel,
                    ),
                    other => other,
                }
            },
            _ => throw(InterpreterError::TypeMismatch),
        }
    }
}

/// Evaluates a call whose callee is a qualified name that starts at a declaration.
pub fn call_qualified<'a>(
    name: &'a Name,
    call: &'a FunctionCall,
    engine: &mut Engine<'a>,
    answers: &Vec<HostAnswer<TValue>>,
    fuel: u64,
) -> (flow: Flow<'a, TValue>)
    requires
        old(engine)@.wf(),
    ensures
        final(engine)@.wf(),
        final(engine)@.depth() == old(engine)@.depth(),
        agrees(
            final(engine)@,
            flow,
            semantics::call_qualified(name, call, old(engine)@, answers@, fuel as nat),
        ),
    decreases fuel, 0nat,
{
    if fuel == 0 {
        return Err(Interrupt::Exhausted);
    }
    let fuel = fuel - 1;
    let scopes = engine.declaration_stack.len();
    assert(engine@.declarations.take(scopes as int) =~= engine@.declarations);
    match qualified(&name.0, scopes, engine.home, &engine.chain, &engine.context, engine) {
        Err(error) => throw(error),
        Ok((source, DeclStackItem::Function(function), owner)) => {
            match interpret_arguments(&call.arguments, engine, answers, fuel) {
                Err(stopped) => stopped,
                Ok(values) => match place_arguments(
                    &function.parameters,
                    Some(&call.arguments),
                    &values,
                ) {
                    Err(error) => throw(error),
                    Ok(slots) => match owner {
                        None => function.call(
                            source,
                            None,
                            Vec::new(),
                            &slots,
                            engine,
                            answers,
                            fuel,
                        ),
                        Some(class) => {
                            let around = first_of(&source.chain, source.chain.len());
                            assert(source.chain@.take(source.chain@.len() as int)
                                =~= source.chain@);
                            match lineage_of(class, source.depth, around, engine, fuel) {
                                Err(None) => Err(Interrupt::Exhausted),
                                Err(Some(error)) => throw(error),
                                Ok((lineage, _)) => function.call(
                                    source,
                                    None,
                                    lineage,
                                    &slots,
                                    engine,
                                    answers,
                                    fuel,
                                ),
                            }
                        },
                    },
                },
            }
        },
        Ok((source, DeclStackItem::Class(class), _)) => class.instantiate(
            source,
            call,
            engine,
            answers,
            fuel,
        ),
        Ok(_) => throw(InterpreterError::TypeMismatch),
    }
}

/// Evaluates a call whose callee is a single identifier.
pub fn call_name<'a>(
    name: &'a Identifier,
    call: &'a FunctionCall,
    engine: &mut Engine<'a>,
    answers: &Vec<HostAnswer<TValue>>,
    fuel: u64,
) -> (flow: Flow<'a, TValue>)
    requires
        old(engine)@.wf(),
    ensures
        final(engine)@.wf(),
        final(engine)@.depth() == old(engine)@.depth(),
        agrees(
            final(engine)@,
            flow,
            semantics::call_name(name, call, old(engine)@, answers@, fuel as nat),
        ),
    decreases fuel, 0nat,
{
    if fuel == 0 {
        return Err(Interrupt::Exhausted);
    }
    let fuel = fuel - 1;
    if engine.find_variable(name).is_some() {
        return throw(InterpreterError::TypeMismatch);
    }
    if let Some(handle) = engine.receiver {
        if handle < engine.heap.len() {
            assert(engine@.heap[handle as int] == engine.heap@[handle as int]@);
            if find_lineage_method(&engine.heap[handle].lineage, name).is_some() {
                return call_member(TValue::Object(handle), name, call, engine, answers, fuel);
            }
        }
    }
    let scopes = engine.declaration_stack.len();
    assert(engine@.declarations.take(scopes as int) =~= engine@.declarations);
    match lookup(name, scopes, engine.home, &engine.chain, engine) {
        Some((source, DeclStackItem::Function(function))) => {
            match interpret_arguments(&call.arguments, engine, answers, fuel) {
                Err(stopped) => stopped,
                Ok(values) => match place_arguments(
                    &function.parameters,
                    Some(&call.arguments),
                    &values,
                ) {
                    Err(error) => throw(error),
                    Ok(slots) => function.call(
                        source,
                        None,
                        Vec::new(),
                        &slots,
                        engine,
                        answers,
                        fuel,
                    ),
                },
            }
        },
        Some((source, DeclStackItem::Class(class))) => class.instantiate(
            source,
            call,
            engine,
            answers,
            fuel,
        ),
        Some(_) => throw(InterpreterError::TypeMismatch),
        None => {
            let print = String::from_str("print");
            if name.0 == print {
                match interpret_arguments(&call.arguments, engine, answers, fuel) {
                    Err(stopped) => stopped,
                    Ok(values) => {
                        print_all(values, engine);
                        Ok(Completion::Normal(Some(TValue::Null)))
                    },
                }
            } else if offers(engine, name) {
                match interpret_arguments(&call.arguments, engine, answers, fuel) {
                    Err(stopped) => stopped,
                    Ok(values) => {
                        proof {
                            lemma_array_view(values);
                        }
                        let request = HostRequest::Call { name, arguments: TValue::Array(values) };
                        match ask(request, engine, answers) {
                            Ok(HostAnswer::Value(result)) => Ok(Completion::Normal(Some(result))),
                            Ok(HostAnswer::Failure(failure)) => Ok(Completion::Throw(failure)),
                            Err(interrupt) => Err(interrupt),
                        }
                    },
                }
            } else {
                throw(InterpreterError::UndefinedReference)
            }
        },
    }
}

/// Evaluates a call of a method of an object.
pub fn call_member<'a>(
    target: TValue,
    name: &'a Identifier,
    call: &'a FunctionCall,
    engine: &mut Engine<'a>,
    answers: &Vec<HostAnswer<TValue>>,
    fuel: u64,
) -> (flow: Flow<'a, TValue>)
    requires
        old(engine)@.wf(),
    ensures
        final(engine)@.wf(),
        final(engine)@.depth() == old(engine)@.depth(),
        agrees(
            final(engine)@,
            flow,
            semantics::call_member(target@, name, call, old(engine)@, answers@, fuel as nat),
        ),
    decreases fuel, 0nat,
{
    if fuel == 0 {
        return Err(Interrupt::Exhausted);
    }
    let fuel = fuel - 1;
    match target {
        TValue::Object(handle) => {
            if handle >= engine.heap.len() {
                return throw(InterpreterError::UndefinedReference);
            }
            assert(engine@.heap[handle as int] == engine.heap@[handle as int]@);
            match find_lineage_method(&engine.heap[handle].lineage, name) {
                None => throw(InterpreterError::UndefinedReference),
                Some((at, visibility, function)) => {
                    let owner = engine.heap[handle].lineage[at];
                    if !is_allowed(visibility, &owner, &engine.context) {
                        return throw(InterpreterError::AccessViolation);
                    }
                    if owner.depth >= engine.depth() {
                        return throw(InterpreterError::UndefinedReference);
                    }
                    let context = rest_of(&engine.heap[handle].lineage, at);
                    let around = instance_chain(engine, handle, at);
                    match interpret_arguments(&call.arguments, engine, answers, fuel) {
                        Err(stopped) => stopped,
                        Ok(values) => match place_arguments(
                            &function.parameters,
                            Some(&call.arguments),
                            &values,
                        ) {
                            Err(error) => throw(error),
                            Ok(slots) => function.call(
                                Source { depth: owner.depth, home: owner.depth, chain: around },
                                Some(handle),
                                context,
                                &slots,
                                engine,
                                answers,
                                fuel,
                            ),
                        },
                    }
                },
            }
        },
        _ => throw(InterpreterError::TypeMismatch),
    }
}

/// The classes of a lineage from the given one on.
pub fn rest_of<'a>(lineage: &Vec<ClassRef<'a>>, from: usize) -> (rest: Vec<ClassRef<'a>>)
    requires
        from <= lineage@.len(),
    ensures
        rest@ == lineage@.skip(from as int),
{
    let mut rest: Vec<ClassRef<'a>> = Vec::new();
    let mut i: usize = from;
    while i < lineage.len()
        invariant
            from <= i <= lineage@.len(),
            rest@ == lineage@.subrange(from as int, i as int),
        decreases lineage@.len() - i,
    {
        rest.push(lineage[i]);
        assert(rest@ =~= lineage@.subrange(from as int, i + 1));
        i += 1;
    }
    assert(rest@ =~= lineage@.skip(from as int));
    rest
}

} // verus!

verus! {

impl Function {
    /// Calls the function, which is at home at `source`, with what each parameter has got.
    /// `receiver` is the instance on which it runs, where it is a method, and `context` the
    /// class to which it belongs then, followed by its bases.
    pub fn call<'a>(
        &'a self,
        source: Source<'a>,
        receiver: Option<usize>,
        context: Vec<ClassRef<'a>>,
        slots: &Vec<Option<TValue>>,
        engine: &mut Engine<'a>,
        answers: &Vec<HostAnswer<TValue>>,
        fuel: u64,
    ) -> (flow: Flow<'a, TValue>)
        requires
            old(engine)@.wf(),
            source.depth < old(engine)@.depth(),
        ensures
            final(engine)@.wf(),
            final(engine)@.depth() == old(engine)@.depth(),
            agrees(
                final(engine)@,
                flow,
                semantics::call_function(
                    self,
                    source@,
                    crate::access::receiver_view(receiver),
                    context@,
                    slots_view(slots@),
                    old(engine)@,
                    answers@,
                    fuel as nat,
                ),
            ),
        decreases fuel, 0nat,
    {
        if fuel == 0 {
            return Err(Interrupt::Exhausted);
        }
        let fuel = fuel - 1;
        let saved = enter_call(engine, source, receiver, context);
        let binding = bind_parameters(&self.parameters, slots, engine, answers, fuel);
        let body = match binding {
            Ok(Completion::Normal(_)) => interpret_body(&self.body, engine, answers, fuel),
            other => other,
        };
        leave_call(engine, saved);
        match body {
            Ok(Completion::Return(Some(result))) => Ok(Completion::Normal(Some(result))),
            Ok(Completion::Return(None)) => Ok(Completion::Normal(Some(TValue::Null))),
            Ok(Completion::Normal(_)) => Ok(Completion::Normal(Some(TValue::Null))),
            Ok(Completion::Break) => Err(Interrupt::OutsideLoop),
            Ok(Completion::Continue) => Err(Interrupt::OutsideLoop),
            other => other,
        }
    }
}

/// Binds the parameters of a function in the innermost scope, each to what it has got or else
/// to the value of its default.
#[verifier::loop_isolation(false)]
pub fn bind_parameters<'a>(
    parameters: &'a Vec<Parameter>,
    slots: &Vec<Option<TValue>>,
    engine: &mut Engine<'a>,
    answers: &Vec<HostAnswer<TValue>>,
    fuel: u64,
) -> (flow: Flow<'a, TValue>)
    requires
        old(engine)@.wf(),
        old(engine)@.depth() > 0,
    ensures
        final(engine)@.wf(),
        final(engine)@.depth() == old(engine)@.depth(),
        agrees(
            final(engine)@,
            flow,
            semantics::bind_parameters(
                parameters,
                slots_view(slots@),
                0,
                old(engine)@,
                answers@,
                fuel as nat,
            ),
        ),
    decreases fuel, parameters@.len(),
{
    let mut i: usize = 0;
    while i < parameters.len()
        invariant
            i <= parameters@.len(),
            engine@.wf(),
            engine@.depth() == old(engine)@.depth(),
            semantics::bind_parameters(
                parameters,
                slots_view(slots@),
                0,
                old(engine)@,
                answers@,
                fuel as nat,
            ) == semantics::bind_parameters(
                parameters,
                slots_view(slots@),
                i as int,
                engine@,
                answers@,
                fuel as nat,
            ),
        decreases parameters@.len() - i,
    {
        if fuel == 0 {
            return Err(Interrupt::Exhausted);
        }
        let parameter = &parameters[i];
        let supplied = if i < slots.len() {
            match &slots[i] {
                Some(argument) => Some(argument.clone()),
                None => None,
            }
        } else {
            None
        };
        let given = match supplied {
            Some(argument) => Ok(Completion::Normal(Some(argument))),
            None => match &parameter.expression {
                Some(default) => default.interpret(engine, answers, fuel - 1),
                None => throw(InterpreterError::TypeMismatch),
            },
        };
        match given {
            Ok(Completion::Normal(Some(argument))) => {
                if engine.declare_variable(&parameter.identifier, argument).is_err() {
                    return Err(Interrupt::Conflict(&parameter.identifier));
                }
            },
            other => {
                return other;
            },
        }
        i += 1;
    }
    Ok(Completion::Normal(None))
}

impl Statement {
    /// Runs the statement.
    pub fn interpret<'a>(
        &'a self,
        engine: &mut Engine<'a>,
        answers: &Vec<HostAnswer<TValue>>,
        fuel: u64,
    ) -> (flow: Flow<'a, TValue>)
        requires
            old(engine)@.wf(),
        ensures
            final(engine)@.wf(),
            final(engine)@.depth() == old(engine)@.depth(),
            agrees(final(engine)@, flow, semantics::run(self, old(engine)@, answers@, fuel as nat)),
        decreases fuel, 0nat,
    {
        if fuel == 0 {
            return Err(Interrupt::Exhausted);
        }
        let fuel = fuel - 1;
        match self {
            Statement::Block(block) => block.interpret(engine, answers, fuel),
            Statement::Assignment(assignment) => assignment.interpret(engine, answers, fuel),
            Statement::Expression(expression) => {
                match expression.interpret(engine, answers, fuel) {
                    Ok(Completion::Normal(_)) => Ok(Completion::Normal(None)),
                    other => other,
                }
            },
            Statement::Condition(condition) => {
                let do_then: &'a Statement = &*condition.do_then;
                match condition.expression.interpret(engine, answers, fuel) {
                    Ok(Completion::Normal(Some(TValue::Boolean(true)))) => do_then.interpret(
                        engine,
                        answers,
                        fuel,
                    ),
                    Ok(Completion::Normal(Some(TValue::Boolean(false)))) => {
                        match &condition.do_else {
                            Some(otherwise) => {
                                let otherwise: &'a Statement = &**otherwise;
                                otherwise.interpret(engine, answers, fuel)
                            },
                            None => Ok(Completion::Normal(None)),
                        }
                    },
                    Ok(Completion::Normal(Some(_))) => throw(InterpreterError::TypeMismatch),
                    other => other,
                }
            },
            Statement::ForLoop(for_loop) => {
                match for_loop.expression.interpret(engine, answers, fuel) {
                    Ok(Completion::Normal(Some(TValue::Array(items)))) => {
                        proof {
                            lemma_array_view(items);
                        }
                        interpret_for(for_loop, &items, engine, answers, fuel)
                    },
                    Ok(Completion::Normal(Some(_))) => throw(InterpreterError::TypeMismatch),
                    other => other,
                }
            },
            Statement::WhileDoLoop(while_loop) => interpret_while(
                while_loop,
                engine,
                answers,
                fuel,
            ),
            Statement::DoWhileLoop(while_loop) => interpret_do_while(
                while_loop,
                engine,
                answers,
                fuel,
            ),
            Statement::Break => Ok(Completion::Break),
            Statement::Continue => Ok(Completion::Continue),
            Statement::Return(None) => Ok(Completion::Return(None)),
            Statement::Return(Some(expression)) => {
                match expression.interpret(engine, answers, fuel) {
                    Ok(Completion::Normal(Some(found))) => Ok(Completion::Return(Some(found))),
                    other => other,
                }
            },
            Statement::Throw(expression) => {
                match expression.interpret(engine, answers, fuel) {
                    Ok(Completion::Normal(Some(found))) => Ok(Completion::Throw(found)),
                    other => other,
                }
            },
            Statement::TryCatch(handler) => {
                let do_try: &'a Statement = &*handler.do_try;
                let do_catch: &'a Statement = &*handler.do_catch;
                match do_try.interpret(engine, answers, fuel) {
                    Ok(Completion::Throw(caught)) => {
                        engine.enter();
                        let bound = engine.declare_variable(&handler.error, caught);
                        assert(bound is Ok);
                        let outcome = do_catch.interpret(engine, answers, fuel);
                        engine.leave();
                        outcome
                    },
                    other => other,
                }
            },
        }
    }
}

impl Block {
    /// Runs the block in a scope of its own.
    pub fn interpret<'a>(
        &'a self,
        engine: &mut Engine<'a>,
        answers: &Vec<HostAnswer<TValue>>,
        fuel: u64,
    ) -> (flow: Flow<'a, TValue>)
        requires
            old(engine)@.wf(),
        ensures
            final(engine)@.wf(),
            final(engine)@.depth() == old(engine)@.depth(),
            agrees(
                final(engine)@,
                flow,
                semantics::run_block(self, old(engine)@, answers@, fuel as nat),
            ),
        decreases fuel, 0nat,
    {
        if fuel == 0 {
            return Err(Interrupt::Exhausted);
        }
        engine.enter();
        let outcome = interpret_body(&self.0, engine, answers, fuel - 1);
        engine.leave();
        outcome
    }
}

/// Runs the items of a block in order, up to the first that does not end normally.
#[verifier::loop_isolation(false)]
pub fn interpret_items<'a>(
    items: &'a Vec<BlockItem>,
    engine: &mut Engine<'a>,
    answers: &Vec<HostAnswer<TValue>>,
    fuel: u64,
) -> (flow: Flow<'a, TValue>)
    requires
        old(engine)@.wf(),
        old(engine)@.depth() > 0,
    ensures
        final(engine)@.wf(),
        final(engine)@.depth() == old(engine)@.depth(),
        agrees(
            final(engine)@,
            flow,
            semantics::run_items(items, 0, old(engine)@, answers@, fuel as nat),
        ),
    decreases fuel, items@.len(),
{
    let mut i: usize = 0;
    while i < items.len()
        invariant
            i <= items@.len(),
            engine@.wf(),
            engine@.depth() == old(engine)@.depth(),
            semantics::run_items(items, 0, old(engine)@, answers@, fuel as nat)
                == semantics::run_items(items, i as int, engine@, answers@, fuel as nat),
        decreases items@.len() - i,
    {
        if fuel == 0 {
            return Err(Interrupt::Exhausted);
        }
        match items[i].interpret(engine, answers, fuel - 1) {
            Ok(Completion::Normal(_)) => {},
            other => {
                return other;
            },
        }
        i += 1;
    }
    Ok(Completion::Normal(None))
}

impl BlockItem {
    /// Runs one item of a block.
    pub fn interpret<'a>(
        &'a self,
        engine: &mut Engine<'a>,
        answers: &Vec<HostAnswer<TValue>>,
        fuel: u64,
    ) -> (flow: Flow<'a, TValue>)
        requires
            old(engine)@.wf(),
            old(engine)@.depth() > 0,
        ensures
            final(engine)@.wf(),
            final(engine)@.depth() == old(engine)@.depth(),
            agrees(
                final(engine)@,
                flow,
                semantics::run_item(self, old(engine)@, answers@, fuel as nat),
            ),
        decreases fuel, 0nat,
    {
        if fuel == 0 {
            return Err(Interrupt::Exhausted);
        }
        let fuel = fuel - 1;
        match self {
            BlockItem::Declaration(Declaration::Variable(variables)) => interpret_variables(
                variables,
                engine,
                answers,
                fuel,
            ),
            BlockItem::Declaration(_) => Ok(Completion::Normal(None)),
            BlockItem::Statement(statement) => statement.interpret(engine, answers, fuel),
            BlockItem::Directive(Directive::Use(directive)) => directive.interpret(engine, answers),
        }
    }
}

/// Declares the variables in the innermost scope, in order, each with the value of its
/// initializer.
#[verifier::loop_isolation(false)]
pub fn interpret_variables<'a>(
    variables: &'a Vec<Variable>,
    engine: &mut Engine<'a>,
    answers: &Vec<HostAnswer<TValue>>,
    fuel: u64,
) -> (flow: Flow<'a, TValue>)
    requires
        old(engine)@.wf(),
        old(engine)@.depth() > 0,
    ensures
        final(engine)@.wf(),
        final(engine)@.depth() == old(engine)@.depth(),
        agrees(
            final(engine)@,
            flow,
            semantics::declare_variables(variables, 0, old(engine)@, answers@, fuel as nat),
        ),
    decreases fuel, variables@.len(),
{
    let mut i: usize = 0;
    while i < variables.len()
        invariant
            i <= variables@.len(),
            engine@.wf(),
            engine@.depth() == old(engine)@.depth(),
            semantics::declare_variables(variables, 0, old(engine)@, answers@, fuel as nat)
                == semantics::declare_variables(
                variables,
                i as int,
                engine@,
                answers@,
                fuel as nat,
            ),
        decreases variables@.len() - i,
    {
        if fuel == 0 {
            return Err(Interrupt::Exhausted);
        }
        let variable = &variables[i];
        let initial = match &variable.expression {
            Some(expression) => expression.interpret(engine, answers, fuel - 1),
            None => Ok(Completion::Normal(Some(TValue::Null))),
        };
        match initial {
            Ok(Completion::Normal(Some(found))) => {
                if engine.declare_variable(&variable.identifier, found).is_err() {
                    return Err(Interrupt::Conflict(&variable.identifier));
                }
            },
            other => {
                return other;
            },
        }
        i += 1;
    }
    Ok(Completion::Normal(None))
}

impl Assignment {
    /// Runs the assignment.
    pub fn interpret<'a>(
        &'a self,
        engine: &mut Engine<'a>,
        answers: &Vec<HostAnswer<TValue>>,
        fuel: u64,
    ) -> (flow: Flow<'a, TValue>)
        requires
            old(engine)@.wf(),
        ensures
            final(engine)@.wf(),
            final(engine)@.depth() == old(engine)@.depth(),
            agrees(
                final(engine)@,
                flow,
                semantics::run_assignment(self, old(engine)@, answers@, fuel as nat),
            ),
        decreases fuel, 0nat,
    {
        if fuel == 0 {
            return Err(Interrupt::Exhausted);
        }
        let fuel = fuel - 1;
        let target = match &self.left_hand_side {
            LeftHandSide::Name(name) => match place_of_name(&name.0, engine) {
                Ok(place) => Ok(place),
                Err(error) => Err(throw(error)),
            },
            LeftHandSide::Item(access) => access.place(engine, answers, fuel),
            LeftHandSide::Member(access) => access.place(engine, answers, fuel),
        };
        match target {
            Err(stopped) => stopped,
            Ok((root, steps)) => match self.expression.interpret(engine, answers, fuel) {
                Ok(Completion::Normal(Some(given))) => store(
                    root,
                    &steps,
                    combining(&self.operation),
                    given,
                    engine,
                    answers,
                ),
                other => other,
            },
        }
    }
}

/// Whether the engine and the place it worked out are what the meaning of the target says.
pub open spec fn matches_place<'a>(
    engine: State<'a>,
    result: Result<(Root<'a, TValue>, Vec<Selector<'a, TValue>>), Flow<'a, TValue>>,
    step: (State<'a>, Result<Place<'a, Value>, Flow<'a, Value>>),
) -> bool {
    engine == step.0 && match result {
        Ok((root, steps)) => step.1 == Ok::<Place<'a, Value>, Flow<'a, Value>>(
            place_view(root, steps@),
        ),
        Err(stopped) => step.1 == Err::<Place<'a, Value>, Flow<'a, Value>>(flow_view(stopped)),
    }
}

impl Expression {
    /// Works out what the expression stands for as the target of an assignment.
    pub fn place<'a>(
        &'a self,
        engine: &mut Engine<'a>,
        answers: &Vec<HostAnswer<TValue>>,
        fuel: u64,
    ) -> (r: Result<(Root<'a, TValue>, Vec<Selector<'a, TValue>>), Flow<'a, TValue>>)
        requires
            old(engine)@.wf(),
        ensures
            final(engine)@.wf(),
            final(engine)@.depth() == old(engine)@.depth(),
            matches_place(
                final(engine)@,
                r,
                semantics::evaluate_place(self, old(engine)@, answers@, fuel as nat),
            ),
        decreases fuel, 0nat,
    {
        if fuel == 0 {
            return Err(Err(Interrupt::Exhausted));
        }
        let fuel = fuel - 1;
        match self {
            Expression::Name(name) => match place_of_name(&name.0, engine) {
                Ok(place) => Ok(place),
                Err(error) => Err(throw(error)),
            },
            Expression::Group(Group::Rounded(inner)) => {
                let inner: &'a Expression = &**inner;
                inner.place(engine, answers, fuel)
            },
            Expression::Group(Group::Square(inner)) => {
                let inner: &'a Expression = &**inner;
                inner.place(engine, answers, fuel)
            },
            Expression::Group(Group::Curly(inner)) => {
                let inner: &'a Expression = &**inner;
                inner.place(engine, answers, fuel)
            },
            Expression::ItemAccess(access) => access.place(engine, answers, fuel),
            Expression::MemberAccess(access) => access.place(engine, answers, fuel),
            _ => match self.interpret(engine, answers, fuel) {
                Ok(Completion::Normal(Some(found))) => {
                    let steps: Vec<Selector<'a, TValue>> = Vec::new();
                    assert(path_view(steps@) =~= Seq::empty());
                    Ok((Root::Value(found), steps))
                },
                other => Err(other),
            },
        }
    }
}

impl ItemAccess {
    /// Works out what the item stands for as the target of an assignment.
    pub fn place<'a>(
        &'a self,
        engine: &mut Engine<'a>,
        answers: &Vec<HostAnswer<TValue>>,
        fuel: u64,
    ) -> (r: Result<(Root<'a, TValue>, Vec<Selector<'a, TValue>>), Flow<'a, TValue>>)
        requires
            old(engine)@.wf(),
        ensures
            final(engine)@.wf(),
            final(engine)@.depth() == old(engine)@.depth(),
            matches_place(
                final(engine)@,
                r,
                semantics::item_place(self, old(engine)@, answers@, fuel as nat),
            ),
        decreases fuel, 0nat,
    {
        if fuel == 0 {
            return Err(Err(Interrupt::Exhausted));
        }
        let fuel = fuel - 1;
        let set: &'a Expression = &*self.set;
        let index: &'a Expression = &*self.index;
        match set.place(engine, answers, fuel) {
            Err(stopped) => Err(stopped),
            Ok((root, steps)) => match index.interpret(engine, answers, fuel) {
                Ok(Completion::Normal(Some(at))) => {
                    let mut steps = steps;
                    let ghost before = path_view(steps@);
                    steps.push(Selector::Index(at));
                    assert(path_view(steps@) =~= before.push(Selector::Index(at@)));
                    Ok((root, steps))
                },
                other => Err(other),
            },
        }
    }
}

impl MemberAccess {
    /// Works out what the member stands for as the target of an assignment.
    pub fn place<'a>(
        &'a self,
        engine: &mut Engine<'a>,
        answers: &Vec<HostAnswer<TValue>>,
        fuel: u64,
    ) -> (r: Result<(Root<'a, TValue>, Vec<Selector<'a, TValue>>), Flow<'a, TValue>>)
        requires
            old(engine)@.wf(),
        ensures
            final(engine)@.wf(),
            final(engine)@.depth() == old(engine)@.depth(),
            matches_place(
                final(engine)@,
                r,
                semantics::member_place(self, old(engine)@, answers@, fuel as nat),
            ),
        decreases fuel, 0nat,
    {
        if fuel == 0 {
            return Err(Err(Interrupt::Exhausted));
        }
        let inner: &'a Expression = &*self.expression;
        match inner.place(engine, answers, fuel - 1) {
            Err(stopped) => Err(stopped),
            Ok((root, steps)) => {
                let mut steps = steps;
                let ghost before = path_view(steps@);
                steps.push(Selector::Member(&self.identifier));
                assert(path_view(steps@) =~= before.push(Selector::Member(&self.identifier)));
                Ok((root, steps))
            },
        }
    }
}

/// Stores a value at a place, combined with what is there where an operator is given.
pub fn store<'a>(
    root: Root<'a, TValue>,
    steps: &Vec<Selector<'a, TValue>>,
    operator: Option<BinaryOperator>,
    given: TValue,
    engine: &mut Engine<'a>,
    answers: &Vec<HostAnswer<TValue>>,
) -> (flow: Flow<'a, TValue>)
    requires
        old(engine)@.wf(),
    ensures
        final(engine)@.wf(),
        final(engine)@.depth() == old(engine)@.depth(),
        agrees(
            final(engine)@,
            flow,
            semantics::store(
                root@,
                path_view(steps@),
                operator,
                given@,
                old(engine)@,
                answers@,
            ),
        ),
{
    match root_value(&root, engine) {
        None => throw(InterpreterError::UndefinedReference),
        Some(start) => {
            let combined = match operator {
                None => Ok(Completion::Normal(Some(given))),
                Some(operator) => {
                    assert(path_view(steps@).take(steps@.len() as int) =~= path_view(steps@));
                    match read_path(start.clone(), steps, steps.len(), engine) {
                        Err(error) => throw(error),
                        Ok(current) => operate(current, given, operator, engine, answers),
                    }
                },
            };
            match combined {
                Ok(Completion::Normal(Some(stored))) => {
                    match write_path(start, steps, 0, stored, engine) {
                        Err(error) => throw(error),
                        Ok(changed) => {
                            match root {
                                Root::Variable(name) => {
                                    let known = engine.assign(name, changed);
                                    assert(known);
                                },
                                Root::Shared { depth, class, member } => {
                                    engine.assign_at(depth, &shared_key(class, member), changed);
                                },
                                Root::Value(_) => {},
                            }
                            Ok(Completion::Normal(None))
                        },
                    }
                },
                other => other,
            }
        },
    }
}

/// Runs a `for` loop over the items.
#[verifier::loop_isolation(false)]
pub fn interpret_for<'a>(
    for_loop: &'a ForLoop,
    items: &Vec<TValue>,
    engine: &mut Engine<'a>,
    answers: &Vec<HostAnswer<TValue>>,
    fuel: u64,
) -> (flow: Flow<'a, TValue>)
    requires
        old(engine)@.wf(),
    ensures
        final(engine)@.wf(),
        final(engine)@.depth() == old(engine)@.depth(),
        agrees(
            final(engine)@,
            flow,
            semantics::run_for(
                for_loop,
                values_view(items@),
                0,
                old(engine)@,
                answers@,
                fuel as nat,
            ),
        ),
    decreases fuel, items@.len(),
{
    let body: &'a Statement = &*for_loop.do_for_each;
    let mut i: usize = 0;
    while i < items.len()
        invariant
            i <= items@.len(),
            engine@.wf(),
            engine@.depth() == old(engine)@.depth(),
            semantics::run_for(
                for_loop,
                values_view(items@),
                0,
                old(engine)@,
                answers@,
                fuel as nat,
            ) == semantics::run_for(
                for_loop,
                values_view(items@),
                i as int,
                engine@,
                answers@,
                fuel as nat,
            ),
        decreases items@.len() - i,
    {
        if fuel == 0 {
            return Err(Interrupt::Exhausted);
        }
        let ghost before = engine@;
        engine.enter();
        match &for_loop.loop_var {
            None => {},
            Some(ForLoopVariable::Identifier(identifier)) => {
                let bound = engine.declare_variable(identifier, items[i].clone());
                assert(bound is Ok);
            },
            Some(ForLoopVariable::Name(name)) => {
                if name.0.len() != 1 {
                    engine.leave();
                    proof {
                        before.lemma_enter_leave();
                    }
                    return throw(InterpreterError::TypeMismatch);
                }
                if !engine.assign(&name.0[0], items[i].clone()) {
                    engine.leave();
                    proof {
                        before.lemma_enter_leave();
                    }
                    return throw(InterpreterError::UndefinedReference);
                }
            },
        }
        let outcome = body.interpret(engine, answers, fuel - 1);
        engine.leave();
        match outcome {
            Ok(Completion::Break) => {
                return Ok(Completion::Normal(None));
            },
            Ok(Completion::Normal(_)) => {},
            Ok(Completion::Continue) => {},
            other => {
                return other;
            },
        }
        i += 1;
    }
    Ok(Completion::Normal(None))
}

/// Runs a `while` loop.
#[verifier::loop_isolation(false)]
pub fn interpret_while<'a>(
    while_loop: &'a WhileLoop,
    engine: &mut Engine<'a>,
    answers: &Vec<HostAnswer<TValue>>,
    fuel: u64,
) -> (flow: Flow<'a, TValue>)
    requires
        old(engine)@.wf(),
    ensures
        final(engine)@.wf(),
        final(engine)@.depth() == old(engine)@.depth(),
        agrees(
            final(engine)@,
            flow,
            semantics::run_while(while_loop, old(engine)@, answers@, fuel as nat),
        ),
    decreases fuel, 0nat,
{
    let body: &'a Statement = &*while_loop.do_while;
    let mut remaining = fuel;
    loop
        invariant
            remaining <= fuel,
            engine@.wf(),
            engine@.depth() == old(engine)@.depth(),
            semantics::run_while(while_loop, old(engine)@, answers@, fuel as nat)
                == semantics::run_while(while_loop, engine@, answers@, remaining as nat),
        decreases remaining,
    {
        if remaining == 0 {
            return Err(Interrupt::Exhausted);
        }
        remaining = remaining - 1;
        match while_loop.expression.interpret(engine, answers, remaining) {
            Ok(Completion::Normal(Some(TValue::Boolean(false)))) => {
                return Ok(Completion::Normal(None));
            },
            Ok(Completion::Normal(Some(TValue::Boolean(true)))) => {
                match body.interpret(engine, answers, remaining) {
                    Ok(Completion::Break) => {
                        return Ok(Completion::Normal(None));
                    },
                    Ok(Completion::Normal(_)) => {},
                    Ok(Completion::Continue) => {},
                    other => {
                        return other;
                    },
                }
            },
            Ok(Completion::Normal(Some(_))) => {
                return throw(InterpreterError::TypeMismatch);
            },
            other => {
                return other;
            },
        }
    }
}

/// Runs a `do` loop.
#[verifier::loop_isolation(false)]
pub fn interpret_do_while<'a>(
    while_loop: &'a WhileLoop,
    engine: &mut Engine<'a>,
    answers: &Vec<HostAnswer<TValue>>,
    fuel: u64,
) -> (flow: Flow<'a, TValue>)
    requires
        old(engine)@.wf(),
    ensures
        final(engine)@.wf(),
        final(engine)@.depth() == old(engine)@.depth(),
        agrees(
            final(engine)@,
            flow,
            semantics::run_do_while(while_loop, old(engine)@, answers@, fuel as nat),
        ),
    decreases fuel, 0nat,
{
    let body: &'a Statement = &*while_loop.do_while;
    let mut remaining = fuel;
    loop
        invariant
            remaining <= fuel,
            engine@.wf(),
            engine@.depth() == old(engine)@.depth(),
            semantics::run_do_while(while_loop, old(engine)@, answers@, fuel as nat)
                == semantics::run_do_while(while_loop, engine@, answers@, remaining as nat),
        decreases remaining,
    {
        if remaining == 0 {
            return Err(Interrupt::Exhausted);
        }
        remaining = remaining - 1;
        match body.interpret(engine, answers, remaining) {
            Ok(Completion::Break) => {
                return Ok(Completion::Normal(None));
            },
            Ok(Completion::Normal(_)) => {},
            Ok(Completion::Continue) => {},
            other => {
                return other;
            },
        }
        match while_loop.expression.interpret(engine, answers, remaining) {
            Ok(Completion::Normal(Some(TValue::Boolean(false)))) => {
                return Ok(Completion::Normal(None));
            },
            Ok(Completion::Normal(Some(TValue::Boolean(true)))) => {},
            Ok(Completion::Normal(Some(_))) => {
                return throw(InterpreterError::TypeMismatch);
            },
            other => {
                return other;
            },
        }
    }
}

} // verus!

verus! {

impl Class {
    /// Makes a new instance of the class, which is at home at `source`, for a call of the
    /// class.
    pub fn instantiate<'a>(
        &'a self,
        source: Source<'a>,
        call: &'a FunctionCall,
        engine: &mut Engine<'a>,
        answers: &Vec<HostAnswer<TValue>>,
        fuel: u64,
    ) -> (flow: Flow<'a, TValue>)
        requires
            old(engine)@.wf(),
            source.depth < old(engine)@.depth(),
        ensures
            final(engine)@.wf(),
            final(engine)@.depth() == old(engine)@.depth(),
            agrees(
                final(engine)@,
                flow,
                semantics::instantiate(
                    self,
                    source@,
                    call,
                    old(engine)@,
                    answers@,
                    fuel as nat,
                ),
            ),
        decreases fuel, 0nat,
    {
        if fuel == 0 {
            return Err(Interrupt::Exhausted);
        }
        let fuel = fuel - 1;
        match interpret_arguments(&call.arguments, engine, answers, fuel) {
            Err(stopped) => stopped,
            Ok(values) => match lineage_of(self, source.depth, source.chain, engine, fuel) {
                Err(None) => Err(Interrupt::Exhausted),
                Err(Some(error)) => throw(error),
                Ok((lineage, chains)) => {
                    let handle = engine.heap.len();
                    let fields = new_fields(&lineage);
                    let classes = rest_of(&lineage, 0);
                    let ghost before = engine@;
                    let instance = Instance { lineage, chains, fields };
                    engine.heap.push(instance);
                    proof {
                        assert(classes@ =~= instance.lineage@);
                        assert(engine@.heap =~= before.heap.push(instance@));
                        assert(engine@.declarations =~= before.declarations);
                        assert(engine@.variables =~= before.variables);
                    }
                    match construct(
                        handle,
                        &classes,
                        0,
                        Some(&call.arguments),
                        &values,
                        engine,
                        answers,
                        fuel,
                    ) {
                        Ok(Completion::Normal(_)) => Ok(
                            Completion::Normal(Some(TValue::Object(handle))),
                        ),
                        other => other,
                    }
                },
            },
        }
    }
}

/// Sets up an instance as one of the class at the given place of its lineage.
pub fn construct<'a>(
    handle: usize,
    lineage: &Vec<ClassRef<'a>>,
    level: usize,
    arguments: Option<&Vec<FunctionCallArgument>>,
    values: &Vec<TValue>,
    engine: &mut Engine<'a>,
    answers: &Vec<HostAnswer<TValue>>,
    fuel: u64,
) -> (flow: Flow<'a, TValue>)
    requires
        old(engine)@.wf(),
    ensures
        final(engine)@.wf(),
        final(engine)@.depth() == old(engine)@.depth(),
        agrees(
            final(engine)@,
            flow,
            semantics::construct(
                handle as nat,
                lineage@,
                level as int,
                names_of(arguments),
                values_view(values@),
                old(engine)@,
                answers@,
                fuel as nat,
            ),
        ),
    decreases fuel, 0nat,
{
    if level >= lineage.len() {
        return Ok(Completion::Normal(None));
    }
    if fuel == 0 {
        return Err(Interrupt::Exhausted);
    }
    let fuel = fuel - 1;
    let own = lineage[level];
    if own.depth >= engine.depth() {
        return throw(InterpreterError::UndefinedReference);
    }
    let class: &'a Class = own.class;
    match class.constructor() {
        Some((visibility, constructor)) => {
            if level == 0 && !is_allowed(visibility, &own, &engine.context) {
                return throw(InterpreterError::AccessViolation);
            }
            match place_arguments(&constructor.parameters, arguments, values) {
                Err(error) => throw(error),
                Ok(slots) => {
                    let around = instance_chain(engine, handle, level);
                    let saved = enter_call(
                        engine,
                        Source { depth: own.depth, home: own.depth, chain: around },
                        Some(handle),
                        rest_of(lineage, level),
                    );
                    let binding = bind_parameters(
                        &constructor.parameters,
                        &slots,
                        engine,
                        answers,
                        fuel,
                    );
                    let basing = match binding {
                        Ok(Completion::Normal(_)) => match interpret_all(
                            &constructor.super_parameters,
                            engine,
                            answers,
                            fuel,
                        ) {
                            Err(stopped) => stopped,
                            Ok(given) => construct(
                                handle,
                                lineage,
                                level + 1,
                                None,
                                &given,
                                engine,
                                answers,
                                fuel,
                            ),
                        },
                        other => other,
                    };
                    let filling = match basing {
                        Ok(Completion::Normal(_)) => initialize_class(
                            handle,
                            class,
                            engine,
                            answers,
                            fuel,
                        ),
                        other => other,
                    };
                    let body = match filling {
                        Ok(Completion::Normal(_)) => interpret_body(
                            &constructor.body,
                            engine,
                            answers,
                            fuel,
                        ),
                        other => other,
                    };
                    leave_call(engine, saved);
                    constructor_result(body)
                },
            }
        },
        None => {
            if values.len() > 0 {
                return throw(InterpreterError::TypeMismatch);
            }
            let around = instance_chain(engine, handle, level);
            let saved = enter_call(
                engine,
                Source { depth: own.depth, home: own.depth, chain: around },
                Some(handle),
                rest_of(lineage, level),
            );
            let nothing: Vec<TValue> = Vec::new();
            assert(values_view(nothing@) =~= Seq::empty());
            let basing = construct(
                handle,
                lineage,
                level + 1,
                None,
                &nothing,
                engine,
                answers,
                fuel,
            );
            let filling = match basing {
                Ok(Completion::Normal(_)) => initialize_class(handle, class, engine, answers, fuel),
                other => other,
            };
            leave_call(engine, saved);
            constructor_result(filling)
        },
    }
}

/// What the making of an instance makes of the way a constructor ended.
pub fn constructor_result<'a>(body: Flow<'a, TValue>) -> (flow: Flow<'a, TValue>)
    ensures
        flow_view(flow) == semantics::constructor_result(flow_view(body)),
{
    match body {
        Ok(Completion::Return(_)) => Ok(Completion::Normal(None)),
        Ok(Completion::Normal(_)) => Ok(Completion::Normal(None)),
        Ok(Completion::Break) => Err(Interrupt::OutsideLoop),
        Ok(Completion::Continue) => Err(Interrupt::OutsideLoop),
        other => other,
    }
}

/// Gives the fields that the class declares the values of their initializers.
pub fn initialize_class<'a>(
    handle: usize,
    class: &'a Class,
    engine: &mut Engine<'a>,
    answers: &Vec<HostAnswer<TValue>>,
    fuel: u64,
) -> (flow: Flow<'a, TValue>)
    requires
        old(engine)@.wf(),
    ensures
        final(engine)@.wf(),
        final(engine)@.depth() == old(engine)@.depth(),
        agrees(
            final(engine)@,
            flow,
            semantics::initialize_class(handle as nat, class, old(engine)@, answers@, fuel as nat),
        ),
    decreases fuel, 0nat,
{
    if fuel == 0 {
        return Err(Interrupt::Exhausted);
    }
    let fuel = fuel - 1;
    match initialize_items(handle, &class.public_items, engine, answers, fuel) {
        Ok(Completion::Normal(_)) => match initialize_items(
            handle,
            &class.protected_items,
            engine,
            answers,
            fuel,
        ) {
            Ok(Completion::Normal(_)) => initialize_items(
                handle,
                &class.private_items,
                engine,
                answers,
                fuel,
            ),
            other => other,
        },
        other => other,
    }
}

/// Gives the fields that the items declare the values of their initializers.
#[verifier::loop_isolation(false)]
pub fn initialize_items<'a>(
    handle: usize,
    items: &'a Vec<ClassItem>,
    engine: &mut Engine<'a>,
    answers: &Vec<HostAnswer<TValue>>,
    fuel: u64,
) -> (flow: Flow<'a, TValue>)
    requires
        old(engine)@.wf(),
    ensures
        final(engine)@.wf(),
        final(engine)@.depth() == old(engine)@.depth(),
        agrees(
            final(engine)@,
            flow,
            semantics::initialize_items(
                handle as nat,
                items,
                0,
                old(engine)@,
                answers@,
                fuel as nat,
            ),
        ),
    decreases fuel, items@.len(),
{
    let mut i: usize = 0;
    while i < items.len()
        invariant
            i <= items@.len(),
            engine@.wf(),
            engine@.depth() == old(engine)@.depth(),
            semantics::initialize_items(
                handle as nat,
                items,
                0,
                old(engine)@,
                answers@,
                fuel as nat,
            ) == semantics::initialize_items(
                handle as nat,
                items,
                i as int,
                engine@,
                answers@,
                fuel as nat,
            ),
        decreases items@.len() - i,
    {
        if fuel == 0 {
            return Err(Interrupt::Exhausted);
        }
        if let ClassItem::Declaration(Declaration::Variable(variables)) = &items[i] {
            match initialize_variables(handle, variables, engine, answers, fuel - 1) {
                Ok(Completion::Normal(_)) => {},
                other => {
                    return other;
                },
            }
        }
        i += 1;
    }
    Ok(Completion::Normal(None))
}

/// Gives the fields that the variables stand for the values of their initializers.
#[verifier::loop_isolation(false)]
pub fn initialize_variables<'a>(
    handle: usize,
    variables: &'a Vec<Variable>,
    engine: &mut Engine<'a>,
    answers: &Vec<HostAnswer<TValue>>,
    fuel: u64,
) -> (flow: Flow<'a, TValue>)
    requires
        old(engine)@.wf(),
    ensures
        final(engine)@.wf(),
        final(engine)@.depth() == old(engine)@.depth(),
        agrees(
            final(engine)@,
            flow,
            semantics::initialize_variables(
                handle as nat,
                variables,
                0,
                old(engine)@,
                answers@,
                fuel as nat,
            ),
        ),
    decreases fuel, variables@.len(),
{
    let mut i: usize = 0;
    while i < variables.len()
        invariant
            i <= variables@.len(),
            engine@.wf(),
            engine@.depth() == old(engine)@.depth(),
            semantics::initialize_variables(
                handle as nat,
                variables,
                0,
                old(engine)@,
                answers@,
                fuel as nat,
            ) == semantics::initialize_variables(
                handle as nat,
                variables,
                i as int,
                engine@,
                answers@,
                fuel as nat,
            ),
        decreases variables@.len() - i,
    {
        if fuel == 0 {
            return Err(Interrupt::Exhausted);
        }
        if let Some(expression) = &variables[i].expression {
            match expression.interpret(engine, answers, fuel - 1) {
                Ok(Completion::Normal(Some(found))) => {
                    set_field(engine, handle, &variables[i].identifier, found);
                },
                other => {
                    return other;
                },
            }
        }
        i += 1;
    }
    Ok(Completion::Normal(None))
}

/// Runs the items of a block, of a function or of a constructor in the scope that was opened
/// for them.
pub fn interpret_body<'a>(
    items: &'a Vec<BlockItem>,
    engine: &mut Engine<'a>,
    answers: &Vec<HostAnswer<TValue>>,
    fuel: u64,
) -> (flow: Flow<'a, TValue>)
    requires
        old(engine)@.wf(),
        old(engine)@.depth() > 0,
    ensures
        final(engine)@.wf(),
        final(engine)@.depth() == old(engine)@.depth(),
        agrees(
            final(engine)@,
            flow,
            semantics::run_body(items, old(engine)@, answers@, fuel as nat),
        ),
    decreases fuel, items@.len() + 1,
{
    match hoist(items, engine) {
        Some(identifier) => Err(Interrupt::Conflict(identifier)),
        None => match bind_shared(items, engine, answers, fuel) {
            Ok(Completion::Normal(_)) => interpret_items(items, engine, answers, fuel),
            other => other,
        },
    }
}

/// Binds the variables that the classes among the items declare for all their instances
/// together.
#[verifier::loop_isolation(false)]
pub fn bind_shared<'a>(
    items: &'a Vec<BlockItem>,
    engine: &mut Engine<'a>,
    answers: &Vec<HostAnswer<TValue>>,
    fuel: u64,
) -> (flow: Flow<'a, TValue>)
    requires
        old(engine)@.wf(),
        old(engine)@.depth() > 0,
    ensures
        final(engine)@.wf(),
        final(engine)@.depth() == old(engine)@.depth(),
        agrees(
            final(engine)@,
            flow,
            semantics::bind_shared(items, 0, old(engine)@, answers@, fuel as nat),
        ),
    decreases fuel, items@.len(),
{
    let mut i: usize = 0;
    while i < items.len()
        invariant
            i <= items@.len(),
            engine@.wf(),
            engine@.depth() == old(engine)@.depth(),
            semantics::bind_shared(items, 0, old(engine)@, answers@, fuel as nat)
                == semantics::bind_shared(items, i as int, engine@, answers@, fuel as nat),
        decreases items@.len() - i,
    {
        if let BlockItem::Declaration(Declaration::Class(class)) = &items[i] {
            if fuel == 0 {
                return Err(Interrupt::Exhausted);
            }
            match bind_shared_of_class(class, engine, answers, fuel - 1) {
                Ok(Completion::Normal(_)) => {},
                other => {
                    return other;
                },
            }
        }
        i += 1;
    }
    Ok(Completion::Normal(None))
}

/// Binds the variables that a class declares for all its instances together.
pub fn bind_shared_of_class<'a>(
    class: &'a Class,
    engine: &mut Engine<'a>,
    answers: &Vec<HostAnswer<TValue>>,
    fuel: u64,
) -> (flow: Flow<'a, TValue>)
    requires
        old(engine)@.wf(),
        old(engine)@.depth() > 0,
    ensures
        final(engine)@.wf(),
        final(engine)@.depth() == old(engine)@.depth(),
        agrees(
            final(engine)@,
            flow,
            semantics::bind_shared_of_class(class, old(engine)@, answers@, fuel as nat),
        ),
    decreases fuel, 0nat,
{
    if fuel == 0 {
        return Err(Interrupt::Exhausted);
    }
    let fuel = fuel - 1;
    match bind_shared_items(class, &class.public_items, engine, answers, fuel) {
        Ok(Completion::Normal(_)) => match bind_shared_items(
            class,
            &class.protected_items,
            engine,
            answers,
            fuel,
        ) {
            Ok(Completion::Normal(_)) => bind_shared_items(
                class,
                &class.private_items,
                engine,
                answers,
                fuel,
            ),
            other => other,
        },
        other => other,
    }
}

/// Binds the variables that the items of a class declare for all instances together.
#[verifier::loop_isolation(false)]
pub fn bind_shared_items<'a>(
    class: &'a Class,
    items: &'a Vec<ClassItem>,
    engine: &mut Engine<'a>,
    answers: &Vec<HostAnswer<TValue>>,
    fuel: u64,
) -> (flow: Flow<'a, TValue>)
    requires
        old(engine)@.wf(),
        old(engine)@.depth() > 0,
    ensures
        final(engine)@.wf(),
        final(engine)@.depth() == old(engine)@.depth(),
        agrees(
            final(engine)@,
            flow,
            semantics::bind_shared_items(class, items, 0, old(engine)@, answers@, fuel as nat),
        ),
    decreases fuel, items@.len(),
{
    let mut i: usize = 0;
    while i < items.len()
        invariant
            i <= items@.len(),
            engine@.wf(),
            engine@.depth() == old(engine)@.depth(),
            semantics::bind_shared_items(class, items, 0, old(engine)@, answers@, fuel as nat)
                == semantics::bind_shared_items(
                class,
                items,
                i as int,
                engine@,
                answers@,
                fuel as nat,
            ),
        decreases items@.len() - i,
    {
        if let ClassItem::StaticDeclaration(Declaration::Variable(variables)) = &items[i] {
            if fuel == 0 {
                return Err(Interrupt::Exhausted);
            }
            match bind_shared_variables(class, variables, engine, answers, fuel - 1) {
                Ok(Completion::Normal(_)) => {},
                other => {
                    return other;
                },
            }
        }
        i += 1;
    }
    Ok(Completion::Normal(None))
}

/// Binds the variables that a class declares for all its instances together, in the
/// innermost scope.
#[verifier::loop_isolation(false)]
pub fn bind_shared_variables<'a>(
    class: &'a Class,
    variables: &'a Vec<Variable>,
    engine: &mut Engine<'a>,
    answers: &Vec<HostAnswer<TValue>>,
    fuel: u64,
) -> (flow: Flow<'a, TValue>)
    requires
        old(engine)@.wf(),
        old(engine)@.depth() > 0,
    ensures
        final(engine)@.wf(),
        final(engine)@.depth() == old(engine)@.depth(),
        agrees(
            final(engine)@,
            flow,
            semantics::bind_shared_variables(
                class,
                variables,
                0,
                old(engine)@,
                answers@,
                fuel as nat,
            ),
        ),
    decreases fuel, variables@.len(),
{
    let mut i: usize = 0;
    while i < variables.len()
        invariant
            i <= variables@.len(),
            engine@.wf(),
            engine@.depth() == old(engine)@.depth(),
            semantics::bind_shared_variables(
                class,
                variables,
                0,
                old(engine)@,
                answers@,
                fuel as nat,
            ) == semantics::bind_shared_variables(
                class,
                variables,
                i as int,
                engine@,
                answers@,
                fuel as nat,
            ),
        decreases variables@.len() - i,
    {
        if fuel == 0 {
            return Err(Interrupt::Exhausted);
        }
        let variable = &variables[i];
        let initial = match &variable.expression {
            Some(expression) => expression.interpret(engine, answers, fuel - 1),
            None => Ok(Completion::Normal(Some(TValue::Null))),
        };
        match initial {
            Ok(Completion::Normal(Some(found))) => {
                let key = shared_key(&class.identifier, &variable.identifier);
                if engine.declare_variable(&key, found).is_err() {
                    return Err(Interrupt::Conflict(&variable.identifier));
                }
            },
            other => {
                return other;
            },
        }
        i += 1;
    }
    Ok(Completion::Normal(None))
}

} // verus!
