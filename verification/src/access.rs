//! The steps of the engine that need no evaluation: reading and changing parts of values and
//! instances, asking the host, giving arguments to parameters, and entering and leaving the
//! code of a call.

use vstd::prelude::*;
use crate::ast::{
    AssignmentOperator, BinaryOperator, BlockItem, Class, Declaration, Function,
    FunctionCallArgument, Identifier, Namespace, Parameter, Variable,
};
use crate::completion::{
    flow_view, thrown, value, Completion, Flow, HostAnswer, HostRequest, Interrupt,
};
use crate::classes::{find_context_shared, find_lineage_field, is_allowed};
use crate::engine::{
    chains_view, declaration_frames, find_name, lemma_found, variable_frames, ClassRef, Engine,
    InstanceModel, State,
};
use crate::error::{Failure, InterpreterError};
use crate::operators::Applied;
use crate::scope::{binds, distinct, rebound, DeclStackItem, DeclarationStack, VariableStack};
use crate::semantics::{path_view, Origin, Place, Root, Selector, Unrelated};
use crate::semantics;
use crate::value::{
    entries_view, find_entry, lemma_array_view, lemma_dictionary_view, lemma_entry_index,
    values_view, TValue, Value,
};

verus! {

impl Clone for HostAnswer<TValue> {
    fn clone(&self) -> (r: Self)
        ensures
            r@ == self@,
    {
        match self {
            HostAnswer::Value(value) => HostAnswer::Value(value.clone()),
            HostAnswer::Failure(value) => HostAnswer::Failure(value.clone()),
        }
    }
}

/// The result in which a failure is thrown.
pub fn throw<'a>(error: InterpreterError) -> (flow: Flow<'a, TValue>)
    ensures
        flow_view(flow) == thrown::<'a>(error@),
{
    Ok(Completion::Throw(error.thrown()))
}

/// The item of an array or the entry of a dictionary that an index leads to.
pub fn item_of(container: &TValue, index: &TValue) -> (r: Result<TValue, InterpreterError>)
    ensures
        match r {
            Ok(found) => semantics::item_of(container@, index@) == Ok::<Value, Failure>(found@),
            Err(error) => semantics::item_of(container@, index@) == Err::<Value, Failure>(error@),
        },
{
    match (container, index) {
        (TValue::Array(items), TValue::Number(i)) => {
            proof {
                lemma_array_view(*items);
            }
            if 0 <= *i && (*i as usize) < items.len() {
                Ok(items[*i as usize].clone())
            } else {
                Err(InterpreterError::UndefinedReference)
            }
        },
        (TValue::Dictionary(entries), TValue::String(key)) => {
            proof {
                lemma_dictionary_view(*entries);
                lemma_entry_index(entries_view(entries@), key@);
            }
            match find_entry(entries, key) {
                Some(i) => Ok(entries[i].1.clone()),
                None => Err(InterpreterError::UndefinedReference),
            }
        },
        _ => Err(InterpreterError::TypeMismatch),
    }
}

/// The value of a field of an instance, for the code that is running.
pub fn field_of<'a>(handle: usize, name: &Identifier, engine: &Engine<'a>) -> (r: Result<
    TValue,
    InterpreterError,
>)
    ensures
        match r {
            Ok(found) => semantics::field_of(handle as nat, name.text(), engine@) == Ok::<
                Value,
                Failure,
            >(found@),
            Err(error) => semantics::field_of(handle as nat, name.text(), engine@) == Err::<
                Value,
                Failure,
            >(error@),
        },
{
    if handle >= engine.heap.len() {
        return Err(InterpreterError::UndefinedReference);
    }
    let instance = &engine.heap[handle];
    assert(engine@.heap[handle as int] == instance@);
    match find_lineage_field(&instance.lineage, name) {
        None => Err(InterpreterError::UndefinedReference),
        Some((at, visibility)) => {
            if !is_allowed(visibility, &instance.lineage[at], &engine.context) {
                return Err(InterpreterError::AccessViolation);
            }
            let found = find_name(&instance.fields, name);
            proof {
                lemma_found(
                    instance@.fields,
                    name.text(),
                    match found {
                        Some(i) => Some(i as int),
                        None => None,
                    },
                );
            }
            match found {
                Some(i) => Ok(instance.fields[i].1.clone()),
                None => Err(InterpreterError::UndefinedReference),
            }
        },
    }
}

/// The member of a value that a name leads to.
pub fn member_of<'a>(container: &TValue, name: &Identifier, engine: &Engine<'a>) -> (r: Result<
    TValue,
    InterpreterError,
>)
    ensures
        match r {
            Ok(found) => semantics::member_of(container@, name.text(), engine@) == Ok::<
                Value,
                Failure,
            >(found@),
            Err(error) => semantics::member_of(container@, name.text(), engine@) == Err::<
                Value,
                Failure,
            >(error@),
        },
{
    match container {
        TValue::Dictionary(entries) => {
            proof {
                lemma_dictionary_view(*entries);
                lemma_entry_index(entries_view(entries@), name.text());
            }
            match find_entry(entries, &name.0) {
                Some(i) => Ok(entries[i].1.clone()),
                None => Err(InterpreterError::UndefinedReference),
            }
        },
        TValue::Object(handle) => field_of(*handle, name, engine),
        _ => Err(InterpreterError::TypeMismatch),
    }
}

/// Gives a field of an instance a new value. Nothing changes where there is no such
/// instance or no such field.
pub fn set_field<'a>(engine: &mut Engine<'a>, handle: usize, name: &Identifier, value: TValue)
    requires
        old(engine)@.wf(),
    ensures
        final(engine)@.wf(),
        final(engine)@ == (State {
            heap: semantics::with_field(old(engine)@.heap, handle as nat, name.text(), value@),
            ..old(engine)@
        }),
{
    if handle >= engine.heap.len() {
        assert(engine@.heap =~= semantics::with_field(
            old(engine)@.heap,
            handle as nat,
            name.text(),
            value@,
        ));
        return ;
    }
    let found = find_name(&engine.heap[handle].fields, name);
    proof {
        assert(engine@.heap[handle as int] == engine.heap@[handle as int]@);
        lemma_found(
            engine@.heap[handle as int].fields,
            name.text(),
            match found {
                Some(i) => Some(i as int),
                None => None,
            },
        );
    }
    match found {
        Some(i) => {
            engine.heap[handle].fields[i].1 = value;
            proof {
                let before = old(engine)@;
                let after = engine@;
                assert(after.heap[handle as int].fields =~= rebound(
                    before.heap[handle as int].fields,
                    name.text(),
                    value@,
                ));
                assert(after.heap =~= semantics::with_field(
                    before.heap,
                    handle as nat,
                    name.text(),
                    value@,
                ));
                assert(after.declarations =~= before.declarations);
                assert(after.variables =~= before.variables);
                assert(after.output =~= before.output);
                assert(after.builtins =~= before.builtins);
            }
        },
        None => {
            assert(engine@.heap =~= semantics::with_field(
                old(engine)@.heap,
                handle as nat,
                name.text(),
                value@,
            ));
        },
    }
}

/// Sets the key of a dictionary to the value.
pub fn set_entry(entries: &mut Vec<(String, TValue)>, key: &String, value: TValue)
    ensures
        entries_view(final(entries)@) == semantics::with_entry(
            entries_view(old(entries)@),
            key@,
            value@,
        ),
{
    proof {
        lemma_entry_index(entries_view(entries@), key@);
    }
    match find_entry(entries, key) {
        Some(i) => {
            entries[i] = (key.clone(), value);
            assert(entries_view(entries@) =~= entries_view(old(entries)@).update(
                i as int,
                (key@, value@),
            ));
        },
        None => {
            entries.push((key.clone(), value));
            assert(entries_view(entries@) =~= entries_view(old(entries)@).push((key@, value@)));
        },
    }
}

/// The operator that a compound assignment combines the old value and the new one with.
pub fn combining(operator: &AssignmentOperator) -> (r: Option<BinaryOperator>)
    ensures
        r == semantics::combining(*operator),
{
    match operator {
        AssignmentOperator::Equals => None,
        AssignmentOperator::Add => Some(BinaryOperator::Add),
        AssignmentOperator::Sub => Some(BinaryOperator::Sub),
        AssignmentOperator::Mul => Some(BinaryOperator::Mul),
        AssignmentOperator::Div => Some(BinaryOperator::RDiv),
        AssignmentOperator::Mod => Some(BinaryOperator::Mod),
        AssignmentOperator::Exp => Some(BinaryOperator::Pow),
    }
}

/// Puts a request to the host.
pub fn ask<'a>(
    request: HostRequest<'a, TValue>,
    engine: &mut Engine<'a>,
    answers: &Vec<HostAnswer<TValue>>,
) -> (r: Result<HostAnswer<TValue>, Interrupt<'a, TValue>>)
    requires
        old(engine)@.wf(),
    ensures
        final(engine)@.wf(),
        final(engine)@.depth() == old(engine)@.depth(),
        final(engine)@ == semantics::ask(request@, old(engine)@, answers@).0,
        match r {
            Ok(answer) => semantics::ask(request@, old(engine)@, answers@).1 == Ok::<
                HostAnswer<Value>,
                Interrupt<'a, Value>,
            >(answer@),
            Err(interrupt) => semantics::ask(request@, old(engine)@, answers@).1 == Err::<
                HostAnswer<Value>,
                Interrupt<'a, Value>,
            >(interrupt@),
        },
{
    if engine.asked < answers.len() {
        let answer = answers[engine.asked].clone();
        engine.asked = engine.asked + 1;
        Ok(answer)
    } else {
        Err(Interrupt::Host(request))
    }
}

/// Applies a binary operator to two values; the host computes where a real takes part.
pub fn operate<'a>(
    left: TValue,
    right: TValue,
    operator: BinaryOperator,
    engine: &mut Engine<'a>,
    answers: &Vec<HostAnswer<TValue>>,
) -> (flow: Flow<'a, TValue>)
    requires
        old(engine)@.wf(),
    ensures
        final(engine)@.wf(),
        final(engine)@.depth() == old(engine)@.depth(),
        (final(engine)@, flow_view(flow)) == semantics::operate(
            left@,
            right@,
            operator,
            old(engine)@,
            answers@,
        ),
{
    match left.binary_operate(&right, &operator) {
        Applied::Value(result) => Ok(Completion::Normal(Some(result))),
        Applied::Refused(error) => throw(error),
        Applied::Deferred => {
            let request = HostRequest::RealArithmetic { operator, left, right };
            match ask(request, engine, answers) {
                Ok(HostAnswer::Value(result)) => {
                    if let TValue::Real(_) = result {
                        Ok(Completion::Normal(Some(result)))
                    } else {
                        throw(crate::operators::binary_refusal(&operator))
                    }
                },
                Ok(HostAnswer::Failure(failure)) => Ok(Completion::Throw(failure)),
                Err(interrupt) => Err(interrupt),
            }
        },
    }
}

/// The part of a value that one step leads to.
pub fn select<'a>(container: &TValue, selector: &Selector<'a, TValue>, engine: &Engine<'a>) -> (r:
    Result<TValue, InterpreterError>)
    ensures
        match r {
            Ok(found) => semantics::select(container@, selector@, engine@) == Ok::<Value, Failure>(
                found@,
            ),
            Err(error) => semantics::select(container@, selector@, engine@) == Err::<
                Value,
                Failure,
            >(error@),
        },
{
    match selector {
        Selector::Index(index) => item_of(container, index),
        Selector::Member(name) => member_of(container, name, engine),
    }
}

/// The part of a value that the first `count` steps lead to.
#[verifier::loop_isolation(false)]
pub fn read_path<'a>(
    container: TValue,
    path: &Vec<Selector<'a, TValue>>,
    count: usize,
    engine: &Engine<'a>,
) -> (r: Result<TValue, InterpreterError>)
    requires
        count <= path@.len(),
    ensures
        match r {
            Ok(found) => semantics::read_path(
                container@,
                path_view(path@).take(count as int),
                0,
                engine@,
            ) == Ok::<Value, Failure>(found@),
            Err(error) => semantics::read_path(
                container@,
                path_view(path@).take(count as int),
                0,
                engine@,
            ) == Err::<Value, Failure>(error@),
        },
{
    let ghost steps = path_view(path@).take(count as int);
    let mut found = container;
    let mut i: usize = 0;
    while i < count
        invariant
            i <= count,
            semantics::read_path(container@, steps, 0, engine@) == semantics::read_path(
                found@,
                steps,
                i as int,
                engine@,
            ),
        decreases count - i,
    {
        assert(steps[i as int] == path@[i as int]@);
        match select(&found, &path[i], engine) {
            Ok(next) => {
                found = next;
            },
            Err(error) => {
                return Err(error);
            },
        }
        i += 1;
    }
    Ok(found)
}

/// Replaces the part of a value that the steps lead to, from the given step on. Changes to
/// instances are made in the engine; the changed value is handed out.
pub fn write_path<'a>(
    container: TValue,
    path: &Vec<Selector<'a, TValue>>,
    from: usize,
    new: TValue,
    engine: &mut Engine<'a>,
) -> (r: Result<TValue, InterpreterError>)
    requires
        old(engine)@.wf(),
    ensures
        final(engine)@.wf(),
        match r {
            Ok(changed) => semantics::write_path(
                container@,
                path_view(path@),
                from as int,
                new@,
                old(engine)@,
            ) == Ok::<(Value, Seq<InstanceModel<'a>>), Failure>((changed@, final(engine)@.heap))
                && final(engine)@ == (State { heap: final(engine)@.heap, ..old(engine)@ }),
            Err(error) => semantics::write_path(
                container@,
                path_view(path@),
                from as int,
                new@,
                old(engine)@,
            ) == Err::<(Value, Seq<InstanceModel<'a>>), Failure>(error@) && final(engine)@ == old(
                engine,
            )@,
        },
    decreases path@.len() - from,
{
    if from >= path.len() {
        return Ok(new);
    }
    assert(path_view(path@)[from as int] == path@[from as int]@);
    match container {
        TValue::Object(handle) => match &path[from] {
            Selector::Member(name) => match field_of(handle, name, engine) {
                Err(error) => Err(error),
                Ok(current) => match write_path(current, path, from + 1, new, engine) {
                    Err(error) => Err(error),
                    Ok(changed) => {
                        set_field(engine, handle, name, changed);
                        Ok(TValue::Object(handle))
                    },
                },
            },
            _ => Err(InterpreterError::TypeMismatch),
        },
        TValue::Array(items) => {
            proof {
                lemma_array_view(items);
            }
            match &path[from] {
                Selector::Index(TValue::Number(i)) => {
                    if 0 <= *i && (*i as usize) < items.len() {
                        let at = *i as usize;
                        match write_path(items[at].clone(), path, from + 1, new, engine) {
                            Err(error) => Err(error),
                            Ok(changed) => {
                                let mut items = items;
                                let ghost before = values_view(items@);
                                items[at] = changed;
                                proof {
                                    lemma_array_view(items);
                                    assert(values_view(items@) =~= before.update(
                                        at as int,
                                        changed@,
                                    ));
                                }
                                Ok(TValue::Array(items))
                            },
                        }
                    } else {
                        Err(InterpreterError::UndefinedReference)
                    }
                },
                _ => Err(InterpreterError::TypeMismatch),
            }
        },
        TValue::Dictionary(entries) => {
            proof {
                lemma_dictionary_view(entries);
            }
            let key: &String = match &path[from] {
                Selector::Index(TValue::String(key)) => key,
                Selector::Index(_) => {
                    return Err(InterpreterError::TypeMismatch);
                },
                Selector::Member(name) => &name.0,
            };
            proof {
                lemma_entry_index(entries_view(entries@), key@);
            }
            match find_entry(&entries, key) {
                Some(at) => match write_path(entries[at].1.clone(), path, from + 1, new, engine) {
                    Err(error) => Err(error),
                    Ok(changed) => {
                        let mut entries = entries;
                        let ghost before = entries_view(entries@);
                        entries[at] = (key.clone(), changed);
                        proof {
                            lemma_dictionary_view(entries);
                            assert(entries_view(entries@) =~= before.update(
                                at as int,
                                (key@, changed@),
                            ));
                        }
                        Ok(TValue::Dictionary(entries))
                    },
                },
                None => {
                    if from + 1 == path.len() {
                        let mut entries = entries;
                        let ghost before = entries_view(entries@);
                        entries.push((key.clone(), new));
                        proof {
                            lemma_dictionary_view(entries);
                            assert(entries_view(entries@) =~= before.push((key@, new@)));
                        }
                        Ok(TValue::Dictionary(entries))
                    } else {
                        Err(InterpreterError::UndefinedReference)
                    }
                },
            }
        },
        _ => Err(InterpreterError::TypeMismatch),
    }
}

/// The steps that the identifiers of a name stand for, from the given one on.
pub fn member_steps<'a>(path: &'a Vec<Identifier>, from: usize) -> (steps: Vec<
    Selector<'a, TValue>,
>)
    requires
        from <= path@.len(),
    ensures
        path_view(steps@) == semantics::member_steps(path, from as int),
        steps@.len() == path@.len() - from,
{
    let mut steps: Vec<Selector<'a, TValue>> = Vec::new();
    let mut i: usize = from;
    while i < path.len()
        invariant
            from <= i <= path@.len(),
            steps@.len() == i - from,
            forall|k: int| 0 <= k < steps@.len() ==> steps@[k]@ == Selector::<Value>::Member(
                &path@[from + k],
            ),
        decreases path@.len() - i,
    {
        steps.push(Selector::Member(&path[i]));
        i += 1;
    }
    assert(path_view(steps@) =~= semantics::member_steps(path, from as int));
    steps
}

/// Whether a place is the model of what the engine has worked out.
pub open spec fn place_view<'a>(root: Root<'a, TValue>, steps: Seq<Selector<'a, TValue>>) -> Place<
    'a,
    Value,
> {
    (root@, path_view(steps))
}

/// The name under which a scope holds a variable that a class declares for all its
/// instances together.
pub fn shared_key(class: &Identifier, member: &Identifier) -> (key: Identifier)
    ensures
        key.text() == semantics::shared_key(class.text(), member.text()),
{
    let mut text = class.0.clone();
    text.append(".");
    text.append(member.0.as_str());
    proof {
        reveal_strlit(".");
        assert("."@ =~= seq!['.']);
    }
    Identifier(text)
}

/// What a name stands for as the target of an assignment or as a value.
pub fn place_of_name<'a>(path: &'a Vec<Identifier>, engine: &Engine<'a>) -> (r: Result<
    (Root<'a, TValue>, Vec<Selector<'a, TValue>>),
    InterpreterError,
>)
    ensures
        match r {
            Ok((root, steps)) => semantics::place_of_name(path, engine@) == Ok::<
                Place<'a, Value>,
                Failure,
            >(place_view(root, steps@)),
            Err(error) => semantics::place_of_name(path, engine@) == Err::<
                Place<'a, Value>,
                Failure,
            >(error@),
        },
        r matches Ok((_, steps)) ==> path@.len() - 2 <= steps@.len() <= path@.len() && path@.len()
            > 0,
        r matches Ok((_, steps)) ==> steps@.len() >= 1 || path@.len() <= 2,
{
    if path.len() == 0 {
        return Err(InterpreterError::UndefinedReference);
    }
    if engine.find_variable(&path[0]).is_some() {
        return Ok((Root::Variable(&path[0]), member_steps(path, 1)));
    }
    if let Some(handle) = engine.receiver {
        let this = String::from_str("this");
        if path[0].0 == this {
            return Ok((Root::Value(TValue::Object(handle)), member_steps(path, 1)));
        }
        if handle < engine.heap.len() {
            assert(engine@.heap[handle as int] == engine.heap@[handle as int]@);
            if find_lineage_field(&engine.heap[handle].lineage, &path[0]).is_some() {
                return Ok((Root::Value(TValue::Object(handle)), member_steps(path, 0)));
            }
        }
    }
    if let Some(at) = find_context_shared(&engine.context, &path[0]) {
        let owner = engine.context[at];
        let class: &'a Class = owner.class;
        return Ok(
            (
                Root::Shared { depth: owner.depth, class: &class.identifier, member: &path[0] },
                member_steps(path, 1),
            ),
        );
    }
    let scopes = engine.declaration_stack.len();
    assert(engine@.declarations.take(scopes as int) =~= engine@.declarations);
    match lookup(&path[0], scopes, engine.home, &engine.chain, engine) {
        Some((source, DeclStackItem::Class(class))) => {
            let depth = source.depth;
            if path.len() >= 2 {
                match class.shared_variable(&path[1]) {
                    Some(visibility) => {
                        if is_allowed(visibility, &ClassRef { class, depth }, &engine.context) {
                            Ok(
                                (
                                    Root::Shared {
                                        depth,
                                        class: &class.identifier,
                                        member: &path[1],
                                    },
                                    member_steps(path, 2),
                                ),
                            )
                        } else {
                            Err(InterpreterError::AccessViolation)
                        }
                    },
                    None => Err(InterpreterError::TypeMismatch),
                }
            } else {
                Err(InterpreterError::TypeMismatch)
            }
        },
        Some(_) => Err(InterpreterError::TypeMismatch),
        None => Err(InterpreterError::UndefinedReference),
    }
}

/// The value at which a place starts.
pub fn root_value<'a>(root: &Root<'a, TValue>, engine: &Engine<'a>) -> (r: Option<TValue>)
    ensures
        match r {
            Some(found) => semantics::root_value(root@, engine@) == Some(found@),
            None => semantics::root_value(root@, engine@) is None,
        },
{
    match root {
        Root::Variable(name) => engine.variable(name),
        Root::Shared { depth, class, member } => engine.variable_at(
            *depth,
            &shared_key(class, member),
        ),
        Root::Value(found) => Some(found.clone()),
    }
}

/// The value of a name.
pub fn name_value<'a>(path: &'a Vec<Identifier>, engine: &Engine<'a>) -> (flow: Flow<'a, TValue>)
    ensures
        flow_view(flow) == semantics::name_value(path, engine@),
{
    match place_of_name(path, engine) {
        Err(error) => throw(error),
        Ok((root, steps)) => match root_value(&root, engine) {
            None => throw(InterpreterError::UndefinedReference),
            Some(start) => {
                assert(path_view(steps@).take(steps@.len() as int) =~= path_view(steps@));
                match read_path(start, &steps, steps.len(), engine) {
                    Ok(found) => Ok(Completion::Normal(Some(found))),
                    Err(error) => throw(error),
                }
            },
        },
    }
}

/// The position of the first parameter of the given name.
pub fn parameter_index(parameters: &Vec<Parameter>, name: &Identifier) -> (r: Option<usize>)
    ensures
        match r {
            Some(at) => semantics::parameter_index(parameters@, name.text(), 0) == Some(at as int)
                && at < parameters@.len(),
            None => semantics::parameter_index(parameters@, name.text(), 0) is None,
        },
{
    let mut i: usize = 0;
    while i < parameters.len()
        invariant
            i <= parameters@.len(),
            semantics::parameter_index(parameters@, name.text(), 0) == semantics::parameter_index(
                parameters@,
                name.text(),
                i as int,
            ),
        decreases parameters@.len() - i,
    {
        if parameters[i].identifier.same(name) {
            return Some(i);
        }
        i += 1;
    }
    None
}

/// The models of what the parameters of a call have got.
pub open spec fn slots_view(slots: Seq<Option<TValue>>) -> Seq<Option<Value>> {
    Seq::new(
        slots.len(),
        |i: int|
            match slots[i] {
                Some(value) => Some(value@),
                None => None,
            },
    )
}

/// The names with which arguments are given: those of the arguments of a call, or none at
/// all.
pub open spec fn names_of(arguments: Option<&Vec<FunctionCallArgument>>) -> Seq<
    Option<Seq<char>>,
> {
    match arguments {
        Some(given) => semantics::argument_names(given@),
        None => Seq::empty(),
    }
}

/// Gives each parameter the argument that is meant for it. The arguments of a call may have
/// names; without them every value goes to the next parameter.
#[verifier::loop_isolation(false)]
pub fn place_arguments(
    parameters: &Vec<Parameter>,
    arguments: Option<&Vec<FunctionCallArgument>>,
    values: &Vec<TValue>,
) -> (r: Result<Vec<Option<TValue>>, InterpreterError>)
    ensures
        match r {
            Ok(slots) => semantics::place_arguments(
                parameters@,
                names_of(arguments),
                values_view(values@),
                0,
                0,
                semantics::no_slots(parameters@),
            ) == Ok::<Seq<Option<Value>>, Failure>(slots_view(slots@)) && slots@.len()
                == parameters@.len(),
            Err(error) => semantics::place_arguments(
                parameters@,
                names_of(arguments),
                values_view(values@),
                0,
                0,
                semantics::no_slots(parameters@),
            ) == Err::<Seq<Option<Value>>, Failure>(error@),
        },
{
    let mut slots: Vec<Option<TValue>> = Vec::new();
    while slots.len() < parameters.len()
        invariant
            slots@.len() <= parameters@.len(),
            forall|i: int| 0 <= i < slots@.len() ==> slots@[i] is None,
        decreases parameters@.len() - slots@.len(),
    {
        slots.push(None);
    }
    assert(slots_view(slots@) =~= semantics::no_slots(parameters@));
    let ghost start = slots_view(slots@);
    let ghost names = names_of(arguments);
    let mut next: usize = 0;
    let mut from: usize = 0;
    while from < values.len()
        invariant
            from <= values@.len(),
            next <= from,
            slots@.len() == parameters@.len(),
            semantics::place_arguments(parameters@, names, values_view(values@), 0, 0, start)
                == semantics::place_arguments(
                parameters@,
                names,
                values_view(values@),
                from as int,
                next as int,
                slots_view(slots@),
            ),
        decreases values@.len() - from,
    {
        let ghost before = slots_view(slots@);
        let name: Option<&Identifier> = match arguments {
            Some(given) => if from < given.len() {
                match &given[from].identifier {
                    Some(name) => Some(name),
                    None => None,
                }
            } else {
                None
            },
            None => None,
        };
        match name {
            Some(name) => {
                match parameter_index(parameters, name) {
                    Some(at) => {
                        slots[at] = Some(values[from].clone());
                        assert(slots_view(slots@) =~= before.update(
                            at as int,
                            Some(values_view(values@)[from as int]),
                        ));
                    },
                    None => {
                        return Err(InterpreterError::UndefinedReference);
                    },
                }
            },
            None => {
                if next < parameters.len() {
                    slots[next] = Some(values[from].clone());
                    assert(slots_view(slots@) =~= before.update(
                        next as int,
                        Some(values_view(values@)[from as int]),
                    ));
                    next += 1;
                } else {
                    return Err(InterpreterError::TypeMismatch);
                }
            },
        }
        from += 1;
    }
    Ok(slots)
}

/// Whether the host has made a function of the given name known.
pub fn offers<'a>(engine: &Engine<'a>, name: &Identifier) -> (r: bool)
    ensures
        r == semantics::offers(engine@.builtins, name.text()),
{
    let mut i: usize = 0;
    while i < engine.builtins.len()
        invariant
            i <= engine.builtins@.len(),
            forall|k: int| 0 <= k < i ==> engine@.builtins[k] != name.text(),
        decreases engine.builtins@.len() - i,
    {
        if engine.builtins[i] == name.0 {
            assert(engine@.builtins[i as int] == name.text());
            return true;
        }
        i += 1;
    }
    false
}

/// Records the values as printed, in order.
pub fn print_all<'a>(values: Vec<TValue>, engine: &mut Engine<'a>)
    requires
        old(engine)@.wf(),
    ensures
        final(engine)@.wf(),
        final(engine)@.depth() == old(engine)@.depth(),
        final(engine)@ == semantics::print_all(values_view(values@), 0, old(engine)@),
{
    let mut i: usize = 0;
    while i < values.len()
        invariant
            i <= values@.len(),
            engine@.wf(),
            engine@.depth() == old(engine)@.depth(),
            semantics::print_all(values_view(values@), 0, old(engine)@) == semantics::print_all(
                values_view(values@),
                i as int,
                engine@,
            ),
        decreases values@.len() - i,
    {
        engine.print(values[i].clone());
        i += 1;
    }
}

/// What a namespace declares under a name.
pub fn namespace_member<'a>(items: &'a Vec<BlockItem>, name: &Identifier) -> (r: Option<
    DeclStackItem<'a>,
>)
    ensures
        r == semantics::namespace_member(items, name.text(), 0),
{
    let mut i: usize = 0;
    while i < items.len()
        invariant
            i <= items@.len(),
            semantics::namespace_member(items, name.text(), 0) == semantics::namespace_member(
                items,
                name.text(),
                i as int,
            ),
        decreases items@.len() - i,
    {
        match &items[i] {
            BlockItem::Declaration(Declaration::Function(function)) => {
                if function.identifier.same(name) {
                    return Some(DeclStackItem::Function(function));
                }
            },
            BlockItem::Declaration(Declaration::Class(class)) => {
                if class.identifier.same(name) {
                    return Some(DeclStackItem::Class(class));
                }
            },
            BlockItem::Declaration(Declaration::Namespace(namespace)) => {
                if namespace.identifier.same(name) {
                    return Some(DeclStackItem::Namespace(namespace));
                }
            },
            _ => {},
        }
        i += 1;
    }
    None
}

/// Where a declaration is at home.
#[derive(Debug)]
pub struct Source<'a> {
    /// The depth of the scope that counts as declaring it.
    pub depth: usize,
    /// The depth of the scope that declares the outermost of its namespaces.
    pub home: usize,
    /// Its namespaces, the outermost first.
    pub chain: Vec<&'a Namespace>,
}

impl<'a> View for Source<'a> {
    type V = Origin<'a>;

    open spec fn view(&self) -> Origin<'a> {
        Origin { depth: self.depth as int, home: self.home as int, chain: self.chain@ }
    }
}

/// The first `count` namespaces of a chain.
pub fn first_of<'a>(chain: &Vec<&'a Namespace>, count: usize) -> (first: Vec<&'a Namespace>)
    requires
        count <= chain@.len(),
    ensures
        first@ == chain@.take(count as int),
{
    let mut first: Vec<&'a Namespace> = Vec::new();
    let mut i: usize = 0;
    while i < count
        invariant
            i <= count <= chain@.len(),
            first@ == chain@.take(i as int),
        decreases count - i,
    {
        first.push(chain[i]);
        assert(first@ =~= chain@.take(i + 1));
        i += 1;
    }
    first
}

/// The innermost namespace of a chain that declares the name.
pub fn chain_member<'a>(chain: &Vec<&'a Namespace>, name: &Identifier) -> (r: Option<
    (usize, DeclStackItem<'a>),
>)
    ensures
        match r {
            Some((count, item)) => semantics::chain_member(
                chain@,
                name.text(),
                chain@.len() as int,
            ) == Some((count as int, item)) && 0 < count <= chain@.len(),
            None => semantics::chain_member(chain@, name.text(), chain@.len() as int) is None,
        },
{
    let mut count: usize = chain.len();
    while count > 0
        invariant
            count <= chain@.len(),
            semantics::chain_member(chain@, name.text(), chain@.len() as int)
                == semantics::chain_member(chain@, name.text(), count as int),
        decreases count,
    {
        let namespace: &'a Namespace = chain[count - 1];
        if let Some(item) = namespace_member(&namespace.body, name) {
            return Some((count, item));
        }
        count -= 1;
    }
    None
}

/// The declaration that a single name leads to among the outermost `scopes` scopes, for code
/// that belongs to the namespaces of `chain`, with where it is at home.
pub fn lookup<'a>(
    name: &Identifier,
    scopes: usize,
    home: usize,
    chain: &Vec<&'a Namespace>,
    engine: &Engine<'a>,
) -> (r: Option<(Source<'a>, DeclStackItem<'a>)>)
    requires
        scopes <= engine@.declarations.len(),
    ensures
        match r {
            Some((source, item)) => semantics::lookup(
                name.text(),
                engine@.declarations.take(scopes as int),
                home as int,
                chain@,
            ) == Some((source@, item)) && source.depth < scopes,
            None => semantics::lookup(
                name.text(),
                engine@.declarations.take(scopes as int),
                home as int,
                chain@,
            ) is None,
        },
{
    let found = engine.find_declaration_within(name, scopes);
    proof {
        if let Some((depth, _)) = found {
            assert(engine@.declarations.take(scopes as int)[depth as int]
                == engine@.declarations[depth as int]);
        }
    }
    if chain.len() == 0 || home >= scopes {
        return match found {
            Some((depth, item)) => Some((Source { depth, home: depth, chain: Vec::new() }, item)),
            None => None,
        };
    }
    assert(chain@.take(chain@.len() as int) =~= chain@);
    match found {
        Some((depth, item)) => {
            if depth > home {
                Some((Source { depth, home, chain: first_of(chain, chain.len()) }, item))
            } else {
                match chain_member(chain, name) {
                    Some((count, member)) => Some(
                        (Source { depth: home, home, chain: first_of(chain, count) }, member),
                    ),
                    None => Some((Source { depth, home: depth, chain: Vec::new() }, item)),
                }
            }
        },
        None => match chain_member(chain, name) {
            Some((count, member)) => Some(
                (Source { depth: home, home, chain: first_of(chain, count) }, member),
            ),
            None => None,
        },
    }
}

/// The declaration that a qualified name leads to among the outermost `scopes` scopes, for
/// code of the given context that belongs to the namespaces of `chain`: where it is at home,
/// the declaration, and the class through which it was last reached.
#[verifier::loop_isolation(false)]
pub fn qualified<'a>(
    path: &'a Vec<Identifier>,
    scopes: usize,
    home: usize,
    chain: &Vec<&'a Namespace>,
    context: &Vec<ClassRef<'a>>,
    engine: &Engine<'a>,
) -> (r: Result<(Source<'a>, DeclStackItem<'a>, Option<&'a Class>), InterpreterError>)
    requires
        scopes <= engine@.declarations.len(),
    ensures
        match r {
            Ok((source, item, owner)) => semantics::qualified(
                path,
                path@.len() as int,
                engine@.declarations.take(scopes as int),
                home as int,
                chain@,
                context@,
            ) == Ok::<(Origin<'a>, semantics::Reached<'a>), Failure>(
                (source@, (item, source.chain@, owner)),
            ) && source.depth < scopes,
            Err(error) => semantics::qualified(
                path,
                path@.len() as int,
                engine@.declarations.take(scopes as int),
                home as int,
                chain@,
                context@,
            ) == Err::<(Origin<'a>, semantics::Reached<'a>), Failure>(error@),
        },
{
    if path.len() == 0 {
        return Err(InterpreterError::UndefinedReference);
    }
    match lookup(&path[0], scopes, home, chain, engine) {
        None => Err(InterpreterError::UndefinedReference),
        Some((source, first)) => {
            let depth = source.depth;
            let start = source.chain.len();
            let ghost origin = source@;
            let mut source = source;
            let mut item = first;
            let mut owner: Option<&'a Class> = None;
            let mut i: usize = 1;
            while i < path.len()
                invariant
                    1 <= i <= path@.len(),
                    source.depth == depth,
                    source.chain@.len() >= start,
                    source.chain@.len() == start ==> source@ == origin,
                    source.chain@.len() > start ==> source.home == depth,
                    semantics::descend(
                        (first, origin.chain, None),
                        depth as int,
                        path,
                        1,
                        path@.len() as int,
                        context@,
                    ) == semantics::descend(
                        (item, source.chain@, owner),
                        depth as int,
                        path,
                        i as int,
                        path@.len() as int,
                        context@,
                    ),
                decreases path@.len() - i,
            {
                match item {
                    DeclStackItem::Namespace(namespace) => {
                        match namespace_member(&namespace.body, &path[i]) {
                            Some(next) => {
                                item = next;
                                source.chain.push(namespace);
                                source.home = depth;
                            },
                            None => {
                                return Err(InterpreterError::UndefinedReference);
                            },
                        }
                    },
                    DeclStackItem::Class(class) => {
                        match class.shared(&path[i]) {
                            Some((visibility, next)) => {
                                if !is_allowed(visibility, &ClassRef { class, depth }, context) {
                                    return Err(InterpreterError::AccessViolation);
                                }
                                item = next;
                                owner = Some(class);
                            },
                            None => {
                                return Err(InterpreterError::UndefinedReference);
                            },
                        }
                    },
                    DeclStackItem::Function(_) => {
                        return Err(InterpreterError::TypeMismatch);
                    },
                }
                i += 1;
            }
            Ok((source, item, owner))
        },
    }
}

/// The namespaces to which the class at the given place of the lineage of an instance
/// belongs.
pub fn instance_chain<'a>(engine: &Engine<'a>, handle: usize, at: usize) -> (chain: Vec<
    &'a Namespace,
>)
    ensures
        chain@ == semantics::instance_chain(engine@, handle as nat, at as int),
{
    if handle < engine.heap.len() && at < engine.heap[handle].chains.len() {
        assert(engine@.heap[handle as int] == engine.heap@[handle as int]@);
        let chain = &engine.heap[handle].chains[at];
        let copy = first_of(chain, chain.len());
        assert(chain@.take(chain@.len() as int) =~= chain@);
        copy
    } else {
        proof {
            if handle < engine.heap@.len() {
                assert(engine@.heap[handle as int] == engine.heap@[handle as int]@);
            }
        }
        Vec::new()
    }
}

/// The lineage of a class that is at home at the given depth in the namespaces of `chain`,
/// with the namespaces of each of its classes.
#[verifier::loop_isolation(false)]
pub fn lineage_of<'a>(
    class: &'a Class,
    depth: usize,
    chain: Vec<&'a Namespace>,
    engine: &Engine<'a>,
    limit: u64,
) -> (r: Result<(Vec<ClassRef<'a>>, Vec<Vec<&'a Namespace>>), Option<InterpreterError>>)
    requires
        depth < engine@.declarations.len(),
    ensures
        match r {
            Ok((lineage, chains)) => semantics::lineage_of(
                class,
                depth as int,
                chain@,
                engine@.declarations,
                (Seq::empty(), Seq::empty()),
                limit as nat,
            ) == Ok::<(Seq<ClassRef<'a>>, Seq<Seq<&'a Namespace>>), Unrelated>(
                (lineage@, chains_view(chains@)),
            ) && lineage@.len() > 0,
            Err(None) => semantics::lineage_of(
                class,
                depth as int,
                chain@,
                engine@.declarations,
                (Seq::empty(), Seq::empty()),
                limit as nat,
            ) == Err::<(Seq<ClassRef<'a>>, Seq<Seq<&'a Namespace>>), Unrelated>(
                Unrelated::Exhausted,
            ),
            Err(Some(error)) => semantics::lineage_of(
                class,
                depth as int,
                chain@,
                engine@.declarations,
                (Seq::empty(), Seq::empty()),
                limit as nat,
            ) == Err::<(Seq<ClassRef<'a>>, Seq<Seq<&'a Namespace>>), Unrelated>(
                Unrelated::Failed(error@),
            ),
        },
{
    let outside: Vec<ClassRef<'a>> = Vec::new();
    let mut found: Vec<ClassRef<'a>> = Vec::new();
    let mut chains: Vec<Vec<&'a Namespace>> = Vec::new();
    let mut current: &'a Class = class;
    let mut at: usize = depth;
    let mut around: Vec<&'a Namespace> = chain;
    let mut remaining: u64 = limit;
    assert(chains_view(chains@) =~= Seq::empty());
    loop
        invariant
            at < engine@.declarations.len(),
            outside@ == Seq::<ClassRef<'a>>::empty(),
            semantics::lineage_of(
                class,
                depth as int,
                chain@,
                engine@.declarations,
                (Seq::empty(), Seq::empty()),
                limit as nat,
            ) == semantics::lineage_of(
                current,
                at as int,
                around@,
                engine@.declarations,
                (found@, chains_view(chains@)),
                remaining as nat,
            ),
        decreases remaining,
    {
        let ghost before = chains_view(chains@);
        found.push(ClassRef { class: current, depth: at });
        let copy = first_of(&around, around.len());
        assert(around@.take(around@.len() as int) =~= around@);
        chains.push(copy);
        assert(chains_view(chains@) =~= before.push(around@));
        match &current.extends {
            None => {
                return Ok((found, chains));
            },
            Some(name) => {
                if remaining == 0 {
                    return Err(None);
                }
                let open = engine.declaration_stack.len();
                assert(at < open);
                match qualified(&name.0, at + 1, at, &around, &outside, engine) {
                    Err(error) => {
                        return Err(Some(error));
                    },
                    Ok((source, DeclStackItem::Class(base), _)) => {
                        current = base;
                        at = source.depth;
                        around = source.chain;
                        remaining = remaining - 1;
                    },
                    Ok(_) => {
                        return Err(Some(InterpreterError::TypeMismatch));
                    },
                }
            },
        }
    }
}

/// What a call puts aside of the state of its caller.
pub struct Saved<'a> {
    pub declarations: DeclarationStack<'a>,
    pub variables: VariableStack,
    pub receiver: Option<usize>,
    pub context: Vec<ClassRef<'a>>,
    pub home: usize,
    pub chain: Vec<&'a Namespace>,
}

/// The model of an instance on which code runs, where there is one.
pub open spec fn receiver_view(receiver: Option<usize>) -> Option<nat> {
    match receiver {
        Some(handle) => Some(handle as nat),
        None => None,
    }
}

/// Whether what was put aside is what a call at the given depth takes from the state.
pub open spec fn saved_from<'a>(saved: Saved<'a>, before: State<'a>, depth: int) -> bool {
    &&& declaration_frames(saved.declarations@) == before.declarations.skip(depth + 1)
    &&& variable_frames(saved.variables@) == before.variables.skip(depth + 1)
    &&& receiver_view(saved.receiver) == before.receiver
    &&& saved.context@ == before.context
    &&& saved.home == before.home
    &&& saved.chain@ == before.chain
}

/// Whether what was put aside can be put back: it holds as many scopes of declarations as of
/// variables, and none of them binds a name twice.
pub open spec fn saved_wf<'a>(saved: Saved<'a>) -> bool {
    &&& saved.declarations@.len() == saved.variables@.len()
    &&& forall|d: int|
        0 <= d < saved.declarations@.len() ==> distinct(
            #[trigger] declaration_frames(saved.declarations@)[d],
        )
    &&& forall|d: int|
        0 <= d < saved.variables@.len() ==> distinct(
            #[trigger] variable_frames(saved.variables@)[d],
        )
}

/// Enters the code of a function, a method or a constructor that was declared at the given
/// depth.
pub fn enter_call<'a>(
    engine: &mut Engine<'a>,
    source: Source<'a>,
    receiver: Option<usize>,
    context: Vec<ClassRef<'a>>,
) -> (saved: Saved<'a>)
    requires
        old(engine)@.wf(),
        source.depth < old(engine)@.depth(),
    ensures
        final(engine)@.wf(),
        final(engine)@.depth() == source.depth + 2,
        final(engine)@ == semantics::call_state(
            old(engine)@,
            source.depth as int,
            source.home as int,
            source.chain@,
            receiver_view(receiver),
            context@,
        ),
        saved_from(saved, old(engine)@, source.depth as int),
        saved_wf(saved),
{
    let depth = source.depth;
    let scopes = engine.detach(depth);
    proof {
        let before = old(engine)@;
        assert(before.declarations.skip(depth + 1).len() == before.declarations.len() - (depth
            + 1));
        assert(before.variables.skip(depth + 1).len() == before.variables.len() - (depth + 1));
        assert(declaration_frames(scopes.0@).len() == scopes.0@.len());
        assert(variable_frames(scopes.1@).len() == scopes.1@.len());
        assert forall|d: int| 0 <= d < scopes.0@.len() implies distinct(
            #[trigger] declaration_frames(scopes.0@)[d],
        ) by {
            assert(declaration_frames(scopes.0@)[d] == before.declarations[depth + 1 + d]);
        }
        assert forall|d: int| 0 <= d < scopes.1@.len() implies distinct(
            #[trigger] variable_frames(scopes.1@)[d],
        ) by {
            assert(variable_frames(scopes.1@)[d] == before.variables[depth + 1 + d]);
        }
    }
    let mut context = context;
    let mut receiver = receiver;
    let mut home = source.home;
    let mut chain = source.chain;
    core::mem::swap(&mut engine.receiver, &mut receiver);
    core::mem::swap(&mut engine.context, &mut context);
    core::mem::swap(&mut engine.home, &mut home);
    core::mem::swap(&mut engine.chain, &mut chain);
    engine.enter();
    Saved { declarations: scopes.0, variables: scopes.1, receiver, context, home, chain }
}

/// Leaves the code of a call and puts back what the call had put aside.
pub fn leave_call<'a>(engine: &mut Engine<'a>, saved: Saved<'a>)
    requires
        old(engine)@.wf(),
        old(engine)@.depth() > 0,
        saved_wf(saved),
    ensures
        final(engine)@.wf(),
        final(engine)@ == (State {
            declarations: old(engine)@.leave().declarations + declaration_frames(
                saved.declarations@,
            ),
            variables: old(engine)@.leave().variables + variable_frames(saved.variables@),
            receiver: receiver_view(saved.receiver),
            context: saved.context@,
            home: saved.home as nat,
            chain: saved.chain@,
            ..old(engine)@
        }),
{
    engine.leave();
    engine.attach((saved.declarations, saved.variables));
    engine.receiver = saved.receiver;
    engine.context = saved.context;
    engine.home = saved.home;
    engine.chain = saved.chain;
}

} // verus!
