//! What a program means.
//!
//! Every function here takes a piece of a program, the state before it runs, the answers that
//! the host has given so far and a budget, and gives the state after it with its result. The
//! budget bounds how deep the interpretation may nest and how many rounds a loop may make;
//! where it is used up, the result is [`Interrupt::Exhausted`]. A request to the host takes
//! the next answer that has not been used; where there is none, the result is
//! [`Interrupt::Host`] with the request.

use vstd::prelude::*;
use crate::ast::{
    Assignment, AssignmentOperator, BinaryOperation, BinaryOperator, Block, BlockItem, Class,
    ClassItem, Declaration, Directive, Expression, ForLoop, ForLoopVariable, Function,
    FunctionCall, FunctionCallArgument, Group, Identifier, ItemAccess, LeftHandSide, Literal,
    MemberAccess, Name, Namespace, Parameter, Statement, UseDirective, Variable, WhileLoop,
};
use crate::classes::{
    allowed, class_constructor, class_shared, class_shared_variable, context_shared, lineage_field,
    lineage_method, with_lineage,
};
use crate::completion::{
    done, thrown, value, value_of, Completion, Flow, HostAnswer, HostRequest, Interrupt,
};
use crate::engine::{ClassRef, InstanceModel, State};
use crate::error::Failure;
use crate::operators::{binary_name, Applied};
use crate::scope::{binds, bound, rebound, resolve, DeclStackItem, Frame};
use crate::value::{entry_index, TValue, Value};

verus! {

/// A state with a result.
pub type Step<'a> = (State<'a>, Flow<'a, Value>);

/// The item of an array or the entry of a dictionary that an index leads to.
pub open spec fn item_of(container: Value, index: Value) -> Result<Value, Failure> {
    match (container, index) {
        (Value::Array(items), Value::Number(i)) => if 0 <= i < items.len() {
            Ok(items[i as int])
        } else {
            Err(Failure::UndefinedReference)
        },
        (Value::Dictionary(entries), Value::String(key)) => match entry_index(entries, key) {
            Some(i) => Ok(entries[i].1),
            None => Err(Failure::UndefinedReference),
        },
        _ => Err(Failure::TypeMismatch),
    }
}

/// The value of a field of an instance, for the code that is running.
pub open spec fn field_of<'a>(handle: nat, name: Seq<char>, state: State<'a>) -> Result<
    Value,
    Failure,
> {
    if handle >= state.heap.len() {
        Err(Failure::UndefinedReference)
    } else {
        let instance = state.heap[handle as int];
        match lineage_field(instance.lineage, name, 0) {
            None => Err(Failure::UndefinedReference),
            Some((at, visibility)) => if !allowed(visibility, instance.lineage[at], state.context) {
                Err(Failure::AccessViolation)
            } else {
                match entry_index(instance.fields, name) {
                    Some(i) => Ok(instance.fields[i].1),
                    None => Err(Failure::UndefinedReference),
                }
            },
        }
    }
}

/// The member of a value that a name leads to: the entry of a dictionary, or the field of
/// an object.
pub open spec fn member_of<'a>(container: Value, name: Seq<char>, state: State<'a>) -> Result<
    Value,
    Failure,
> {
    match container {
        Value::Dictionary(entries) => match entry_index(entries, name) {
            Some(i) => Ok(entries[i].1),
            None => Err(Failure::UndefinedReference),
        },
        Value::Object(handle) => field_of(handle, name, state),
        _ => Err(Failure::TypeMismatch),
    }
}

/// One step on the way from a value to a part of it.
#[derive(Debug)]
pub enum Selector<'a, V> {
    Index(V),
    Member(&'a Identifier),
}

impl<'a> View for Selector<'a, TValue> {
    type V = Selector<'a, Value>;

    open spec fn view(&self) -> Selector<'a, Value> {
        match self {
            Selector::Index(index) => Selector::Index(index@),
            Selector::Member(name) => Selector::Member(*name),
        }
    }
}

/// Where the target of an assignment starts: at a variable, at a variable that a class
/// declares for all its instances together, or at a value that an expression gave.
#[derive(Debug)]
pub enum Root<'a, V> {
    Variable(&'a Identifier),
    /// The variable `member` of the class `class`, which is declared at the given depth.
    Shared { depth: usize, class: &'a Identifier, member: &'a Identifier },
    Value(V),
}

impl<'a> View for Root<'a, TValue> {
    type V = Root<'a, Value>;

    open spec fn view(&self) -> Root<'a, Value> {
        match self {
            Root::Variable(name) => Root::Variable(*name),
            Root::Shared { depth, class, member } => Root::Shared {
                depth: *depth,
                class: *class,
                member: *member,
            },
            Root::Value(found) => Root::Value(found@),
        }
    }
}

/// The target of an assignment: where it starts, and the steps from there.
pub type Place<'a, V> = (Root<'a, V>, Seq<Selector<'a, V>>);

/// The models of the steps, one by one.
pub open spec fn path_view<'a>(path: Seq<Selector<'a, TValue>>) -> Seq<Selector<'a, Value>> {
    Seq::new(path.len(), |i: int| path[i]@)
}

/// The part of a value that one step leads to.
pub open spec fn select<'a>(container: Value, selector: Selector<'a, Value>, state: State<'a>) -> Result<
    Value,
    Failure,
> {
    match selector {
        Selector::Index(index) => item_of(container, index),
        Selector::Member(name) => member_of(container, name.text(), state),
    }
}

/// The part of a value that the steps lead to, from the given step on.
pub open spec fn read_path<'a>(
    container: Value,
    path: Seq<Selector<'a, Value>>,
    from: int,
    state: State<'a>,
) -> Result<Value, Failure>
    decreases path.len() - from,
{
    if from < 0 || from >= path.len() {
        Ok(container)
    } else {
        match select(container, path[from], state) {
            Ok(next) => read_path(next, path, from + 1, state),
            Err(failure) => Err(failure),
        }
    }
}

/// The key of a dictionary that a step names.
pub open spec fn selector_key<'a>(selector: Selector<'a, Value>) -> Option<Seq<char>> {
    match selector {
        Selector::Index(Value::String(key)) => Some(key),
        Selector::Index(_) => None,
        Selector::Member(name) => Some(name.text()),
    }
}

/// The instances with a new value in a field of one of them.
pub open spec fn with_field<'a>(
    heap: Seq<InstanceModel<'a>>,
    handle: nat,
    name: Seq<char>,
    value: Value,
) -> Seq<InstanceModel<'a>> {
    if handle < heap.len() && binds(heap[handle as int].fields, name) {
        heap.update(
            handle as int,
            InstanceModel { fields: rebound(heap[handle as int].fields, name, value), ..heap[handle as int] },
        )
    } else {
        heap
    }
}

/// What becomes of a value and of the instances when the part that the steps lead to, from
/// the given step on, is replaced. Arrays and dictionaries are values: the result holds the
/// changed copy. An object is a reference: the change is made in its instance and the object
/// stays what it was. The last step may name a key that a dictionary does not have yet.
pub open spec fn write_path<'a>(
    container: Value,
    path: Seq<Selector<'a, Value>>,
    from: int,
    new: Value,
    state: State<'a>,
) -> Result<(Value, Seq<InstanceModel<'a>>), Failure>
    decreases path.len() - from,
{
    if from < 0 || from >= path.len() {
        Ok((new, state.heap))
    } else {
        match container {
            Value::Object(handle) => match path[from] {
                Selector::Member(name) => match field_of(handle, name.text(), state) {
                    Err(failure) => Err(failure),
                    Ok(current) => match write_path(current, path, from + 1, new, state) {
                        Err(failure) => Err(failure),
                        Ok((changed, heap)) => Ok(
                            (container, with_field(heap, handle, name.text(), changed)),
                        ),
                    },
                },
                _ => Err(Failure::TypeMismatch),
            },
            Value::Array(items) => match path[from] {
                Selector::Index(Value::Number(i)) => if 0 <= i < items.len() {
                    match write_path(items[i as int], path, from + 1, new, state) {
                        Err(failure) => Err(failure),
                        Ok((changed, heap)) => Ok(
                            (Value::Array(items.update(i as int, changed)), heap),
                        ),
                    }
                } else {
                    Err(Failure::UndefinedReference)
                },
                _ => Err(Failure::TypeMismatch),
            },
            Value::Dictionary(entries) => match selector_key(path[from]) {
                None => Err(Failure::TypeMismatch),
                Some(key) => match entry_index(entries, key) {
                    Some(at) => match write_path(entries[at].1, path, from + 1, new, state) {
                        Err(failure) => Err(failure),
                        Ok((changed, heap)) => Ok(
                            (Value::Dictionary(entries.update(at, (key, changed))), heap),
                        ),
                    },
                    None => if from + 1 == path.len() {
                        Ok((Value::Dictionary(entries.push((key, new))), state.heap))
                    } else {
                        Err(Failure::UndefinedReference)
                    },
                },
            },
            _ => Err(Failure::TypeMismatch),
        }
    }
}

/// The steps that the identifiers of a name stand for, from the given one on.
pub open spec fn member_steps<'a>(path: &'a Vec<Identifier>, from: int) -> Seq<Selector<'a, Value>> {
    Seq::new(
        if 0 <= from <= path@.len() {
            (path@.len() - from) as nat
        } else {
            0
        },
        |i: int| Selector::Member(&path@[from + i]),
    )
}

/// The name under which a scope holds a variable that a class declares for all its
/// instances together: the name of the class, a dot, and the name of the variable.
pub open spec fn shared_key(class: Seq<char>, member: Seq<char>) -> Seq<char> {
    class + seq!['.'] + member
}

/// What a name stands for as the target of an assignment or as a value. Its first identifier
/// names a variable; or, in the code of a class, the instance itself under the name `this`,
/// a field of the instance, or a variable that the class or one of its bases declares for
/// all instances together. Such a variable is also reached from anywhere by the name of its
/// class and its own. The identifiers after that name members.
pub open spec fn place_of_name<'a>(path: &'a Vec<Identifier>, state: State<'a>) -> Result<
    Place<'a, Value>,
    Failure,
> {
    if path@.len() == 0 {
        Err(Failure::UndefinedReference)
    } else if state.variable(path@[0].text()) is Some {
        Ok((Root::Variable(&path@[0]), member_steps(path, 1)))
    } else if state.receiver is Some && path@[0].text() == "this"@ {
        Ok((Root::Value(Value::Object(state.receiver.unwrap())), member_steps(path, 1)))
    } else if state.receiver is Some && state.receiver.unwrap() < state.heap.len() && lineage_field(
        state.heap[state.receiver.unwrap() as int].lineage,
        path@[0].text(),
        0,
    ) is Some {
        Ok((Root::Value(Value::Object(state.receiver.unwrap())), member_steps(path, 0)))
    } else if context_shared(state.context, path@[0].text(), 0) is Some {
        let owner = state.context[context_shared(state.context, path@[0].text(), 0).unwrap()];
        Ok(
            (
                Root::Shared {
                    depth: owner.depth,
                    class: &owner.class.identifier,
                    member: &path@[0],
                },
                member_steps(path, 1),
            ),
        )
    } else {
        match lookup(path@[0].text(), state.declarations, state.home as int, state.chain) {
            Some((origin, DeclStackItem::Class(class))) => if path@.len() >= 2 {
                match class_shared_variable(class, path@[1].text()) {
                    Some(visibility) => if allowed(
                        visibility,
                        ClassRef { class, depth: origin.depth as usize },
                        state.context,
                    ) {
                        Ok(
                            (
                                Root::Shared {
                                    depth: origin.depth as usize,
                                    class: &class.identifier,
                                    member: &path@[1],
                                },
                                member_steps(path, 2),
                            ),
                        )
                    } else {
                        Err(Failure::AccessViolation)
                    },
                    None => Err(Failure::TypeMismatch),
                }
            } else {
                Err(Failure::TypeMismatch)
            },
            Some(_) => Err(Failure::TypeMismatch),
            None => Err(Failure::UndefinedReference),
        }
    }
}

/// The value at which a place starts.
pub open spec fn root_value<'a>(root: Root<'a, Value>, state: State<'a>) -> Option<Value> {
    match root {
        Root::Variable(name) => state.variable(name.text()),
        Root::Shared { depth, class, member } => state.variable_at(
            depth as int,
            shared_key(class.text(), member.text()),
        ),
        Root::Value(found) => Some(found),
    }
}

/// The entries of a dictionary with the key set to the value: in place where the key is
/// there, at the end where it is not.
pub open spec fn with_entry(entries: Seq<(Seq<char>, Value)>, key: Seq<char>, value: Value) -> Seq<
    (Seq<char>, Value),
> {
    match entry_index(entries, key) {
        Some(i) => entries.update(i, (key, value)),
        None => entries.push((key, value)),
    }
}

/// The operator that a compound assignment combines the old value and the new one with.
pub open spec fn combining(operator: AssignmentOperator) -> Option<BinaryOperator> {
    match operator {
        AssignmentOperator::Equals => None,
        AssignmentOperator::Add => Some(BinaryOperator::Add),
        AssignmentOperator::Sub => Some(BinaryOperator::Sub),
        AssignmentOperator::Mul => Some(BinaryOperator::Mul),
        AssignmentOperator::Div => Some(BinaryOperator::RDiv),
        AssignmentOperator::Mod => Some(BinaryOperator::Mod),
        AssignmentOperator::Exp => Some(BinaryOperator::Pow),
    }
}

/// Puts a request to the host: its answer is the next one that has not been used.
pub open spec fn ask<'a>(
    request: HostRequest<'a, Value>,
    state: State<'a>,
    answers: Seq<HostAnswer<TValue>>,
) -> (State<'a>, Result<HostAnswer<Value>, Interrupt<'a, Value>>) {
    if state.asked < answers.len() {
        (state.answered(), Ok(answers[state.asked as int]@))
    } else {
        (state, Err(Interrupt::Host(request)))
    }
}

/// The outcome of an import, which the host carries out: the host's answer is of no
/// account unless it is a failure, which is thrown.
pub open spec fn import<'a>(
    directive: &'a UseDirective,
    state: State<'a>,
    answers: Seq<HostAnswer<TValue>>,
) -> Step<'a> {
    let (after, answer) = ask(HostRequest::Import(directive), state, answers);
    (
        after,
        match answer {
            Ok(HostAnswer::Value(_)) => done(),
            Ok(HostAnswer::Failure(failure)) => Ok(Completion::Throw(failure)),
            Err(interrupt) => Err(interrupt),
        },
    )
}

/// Applies a binary operator to two values. Arithmetic on reals is asked of the host, whose
/// answer has to be a real.
pub open spec fn operate<'a>(
    left: Value,
    right: Value,
    operator: BinaryOperator,
    state: State<'a>,
    answers: Seq<HostAnswer<TValue>>,
) -> Step<'a> {
    match left.binary(right, operator) {
        Applied::Value(result) => (state, value(result)),
        Applied::Refused(failure) => (state, thrown(failure)),
        Applied::Deferred => {
            let (after, answer) = ask(
                HostRequest::RealArithmetic { operator, left, right },
                state,
                answers,
            );
            (
                after,
                match answer {
                    Ok(HostAnswer::Value(result)) => if result is Real {
                        value(result)
                    } else {
                        thrown(Failure::OperationNotPossible(binary_name(operator)))
                    },
                    Ok(HostAnswer::Failure(failure)) => Ok(Completion::Throw(failure)),
                    Err(interrupt) => Err(interrupt),
                },
            )
        },
    }
}

/// The value of a name. A declaration is no value.
pub open spec fn name_value<'a>(path: &'a Vec<Identifier>, state: State<'a>) -> Flow<'a, Value> {
    match place_of_name(path, state) {
        Err(failure) => thrown(failure),
        Ok((root, steps)) => match root_value(root, state) {
            None => thrown(Failure::UndefinedReference),
            Some(start) => match read_path(start, steps, 0, state) {
                Ok(found) => value(found),
                Err(failure) => thrown(failure),
            },
        },
    }
}

/// The position of the first parameter of the given name.
pub open spec fn parameter_index(parameters: Seq<Parameter>, name: Seq<char>, from: int) -> Option<
    int,
>
    decreases parameters.len() - from,
{
    if from < 0 || from >= parameters.len() {
        None
    } else if parameters[from].identifier.text() == name {
        Some(from)
    } else {
        parameter_index(parameters, name, from + 1)
    }
}

/// The names with which the arguments of a call are given.
pub open spec fn argument_names(arguments: Seq<FunctionCallArgument>) -> Seq<Option<Seq<char>>> {
    Seq::new(
        arguments.len(),
        |i: int|
            match arguments[i].identifier {
                Some(name) => Some(name.text()),
                None => None,
            },
    )
}

/// Which parameter gets which argument: an argument without a name goes to the next
/// parameter in order, one with a name to the parameter of that name, over whatever that
/// parameter had.
pub open spec fn place_arguments(
    parameters: Seq<Parameter>,
    names: Seq<Option<Seq<char>>>,
    values: Seq<Value>,
    from: int,
    next: int,
    slots: Seq<Option<Value>>,
) -> Result<Seq<Option<Value>>, Failure>
    decreases values.len() - from,
{
    if from < 0 || from >= values.len() {
        Ok(slots)
    } else if from < names.len() && names[from] is Some {
        match parameter_index(parameters, names[from].unwrap(), 0) {
            Some(at) => place_arguments(
                parameters,
                names,
                values,
                from + 1,
                next,
                slots.update(at, Some(values[from])),
            ),
            None => Err(Failure::UndefinedReference),
        }
    } else if 0 <= next < parameters.len() {
        place_arguments(
            parameters,
            names,
            values,
            from + 1,
            next + 1,
            slots.update(next, Some(values[from])),
        )
    } else {
        Err(Failure::TypeMismatch)
    }
}

/// What the parameters have before any argument is given: nothing.
pub open spec fn no_slots(parameters: Seq<Parameter>) -> Seq<Option<Value>> {
    Seq::new(parameters.len(), |i: int| None)
}

/// Makes the functions, classes and namespaces among the items known in the innermost scope,
/// from the given item on. The identifier is that of the first declaration whose name the
/// scope has already; nothing after it is made known.
pub open spec fn hoist<'a>(items: &'a Vec<BlockItem>, from: int, state: State<'a>) -> (
    State<'a>,
    Option<&'a Identifier>,
)
    decreases items@.len() - from,
{
    if from < 0 || from >= items@.len() {
        (state, None)
    } else {
        match hoisted(&items@[from]) {
            Some((identifier, item)) => if state.declares_here(identifier.text()) {
                (state, Some(identifier))
            } else {
                hoist(items, from + 1, state.register(identifier.text(), item))
            },
            None => hoist(items, from + 1, state),
        }
    }
}

/// What an item declares for its whole block, where it is a function, a class or a namespace.
pub open spec fn hoisted<'a>(item: &'a BlockItem) -> Option<(&'a Identifier, DeclStackItem<'a>)> {
    match item {
        BlockItem::Declaration(Declaration::Function(function)) => Some(
            (&function.identifier, DeclStackItem::Function(function)),
        ),
        BlockItem::Declaration(Declaration::Class(class)) => Some(
            (&class.identifier, DeclStackItem::Class(class)),
        ),
        BlockItem::Declaration(Declaration::Namespace(namespace)) => Some(
            (&namespace.identifier, DeclStackItem::Namespace(namespace)),
        ),
        _ => None,
    }
}

/// The state in which the code of a function, a method or a constructor runs that was
/// declared at the given depth: the scopes up to that of its declaration, and a new one
/// for the call. `chain` holds the namespaces to which the code belongs, of which the
/// outermost is declared at the depth `home`; `receiver` is the instance on which the code
/// runs and `context` the class to which it belongs, followed by its bases.
pub open spec fn call_state<'a>(
    state: State<'a>,
    depth: int,
    home: int,
    chain: Seq<&'a Namespace>,
    receiver: Option<nat>,
    context: Seq<ClassRef<'a>>,
) -> State<'a> {
    State {
        declarations: state.declarations.take(depth + 1),
        variables: state.variables.take(depth + 1),
        receiver,
        context,
        home: home as nat,
        chain,
        ..state
    }.enter()
}

/// The state of the caller after a call: what the call left of the outer scopes, and the
/// inner scopes of the caller as they were.
pub open spec fn return_state<'a>(after: State<'a>, before: State<'a>, depth: int) -> State<'a> {
    State {
        declarations: after.leave().declarations + before.declarations.skip(depth + 1),
        variables: after.leave().variables + before.variables.skip(depth + 1),
        receiver: before.receiver,
        context: before.context,
        home: before.home,
        chain: before.chain,
        ..after
    }
}

/// What a call makes of the way the body of its function ended.
pub open spec fn call_result<'a>(body: Flow<'a, Value>) -> Flow<'a, Value> {
    match body {
        Ok(Completion::Return(Some(result))) => value(result),
        Ok(Completion::Return(None)) => value(Value::Null),
        Ok(Completion::Normal(_)) => value(Value::Null),
        Ok(Completion::Break) => Err(Interrupt::OutsideLoop),
        Ok(Completion::Continue) => Err(Interrupt::OutsideLoop),
        other => other,
    }
}

/// What the making of an instance makes of the way a constructor ended.
pub open spec fn constructor_result<'a>(body: Flow<'a, Value>) -> Flow<'a, Value> {
    match body {
        Ok(Completion::Return(_)) => done(),
        Ok(Completion::Normal(_)) => done(),
        Ok(Completion::Break) => Err(Interrupt::OutsideLoop),
        Ok(Completion::Continue) => Err(Interrupt::OutsideLoop),
        other => other,
    }
}

/// Whether the host has made a function of the given name known.
pub open spec fn offers(builtins: Seq<Seq<char>>, name: Seq<char>) -> bool {
    exists|i: int| 0 <= i < builtins.len() && builtins[i] == name
}

/// Why a class has no lineage.
pub enum Unrelated {
    /// The budget is used up.
    Exhausted,
    /// A base is not to be found, or is no class.
    Failed(Failure),
}

/// What a namespace declares under a name: the first function, class or namespace of that
/// name among its items, from the given item on.
pub open spec fn namespace_member<'a>(items: &'a Vec<BlockItem>, name: Seq<char>, from: int) -> Option<
    DeclStackItem<'a>,
>
    decreases items@.len() - from,
{
    if from < 0 || from >= items@.len() {
        None
    } else {
        match hoisted(&items@[from]) {
            Some((identifier, item)) => if identifier.text() == name {
                Some(item)
            } else {
                namespace_member(items, name, from + 1)
            },
            None => namespace_member(items, name, from + 1),
        }
    }
}

/// The innermost of the first `count` namespaces of a chain that declares the name: how many
/// namespaces of the chain lead to the declaration, and the declaration.
pub open spec fn chain_member<'a>(chain: Seq<&'a Namespace>, name: Seq<char>, count: int) -> Option<
    (int, DeclStackItem<'a>),
>
    decreases count,
{
    if count <= 0 || count > chain.len() {
        None
    } else {
        match namespace_member(&chain[count - 1].body, name, 0) {
            Some(item) => Some((count, item)),
            None => chain_member(chain, name, count - 1),
        }
    }
}

/// Where a declaration is at home: the depth of the scope that counts as declaring it, the
/// depth of the scope that declares the outermost of its namespaces, and its namespaces, the
/// outermost first.
pub struct Origin<'a> {
    pub depth: int,
    pub home: int,
    pub chain: Seq<&'a Namespace>,
}

/// The declaration that a single name leads to, for code that belongs to the namespaces of
/// `chain`, with where it is at home. A scope that was opened inside the code of the
/// namespaces comes first, then the namespaces from the innermost outwards, then the scopes
/// around them.
pub open spec fn lookup<'a>(
    name: Seq<char>,
    declarations: Seq<Frame<DeclStackItem<'a>>>,
    home: int,
    chain: Seq<&'a Namespace>,
) -> Option<(Origin<'a>, DeclStackItem<'a>)> {
    let outside = match resolve(declarations, name) {
        Some(depth) => Some(
            (Origin { depth, home: depth, chain: Seq::empty() }, bound(declarations[depth], name)),
        ),
        None => None,
    };
    if chain.len() == 0 || home < 0 || home >= declarations.len() {
        outside
    } else {
        match resolve(declarations, name) {
            Some(depth) => if depth > home {
                Some((Origin { depth, home, chain }, bound(declarations[depth], name)))
            } else {
                match chain_member(chain, name, chain.len() as int) {
                    Some((count, item)) => Some(
                        (Origin { depth: home, home, chain: chain.take(count) }, item),
                    ),
                    None => outside,
                }
            },
            None => match chain_member(chain, name, chain.len() as int) {
                Some((count, item)) => Some(
                    (Origin { depth: home, home, chain: chain.take(count) }, item),
                ),
                None => None,
            },
        }
    }
}

/// A declaration that a qualified name leads to: the declaration, the namespaces to which it
/// belongs, and the class through which it was last reached, where it is one that a class
/// makes for all its instances.
pub type Reached<'a> = (DeclStackItem<'a>, Seq<&'a Namespace>, Option<&'a Class>);

/// What the identifiers of a qualified name lead to, from the given one up to the one at
/// `upto`, starting at a declaration that was declared at the given depth. A namespace is
/// searched for what it declares, a class for what it declares for all instances together,
/// as far as that is open to the code that is running.
pub open spec fn descend<'a>(
    reached: Reached<'a>,
    depth: int,
    path: &'a Vec<Identifier>,
    from: int,
    upto: int,
    context: Seq<ClassRef<'a>>,
) -> Result<Reached<'a>, Failure>
    decreases upto - from,
{
    if from < 0 || from >= upto || from >= path@.len() {
        Ok(reached)
    } else {
        match reached.0 {
            DeclStackItem::Namespace(namespace) => match namespace_member(
                &namespace.body,
                path@[from].text(),
                0,
            ) {
                Some(next) => descend(
                    (next, reached.1.push(namespace), reached.2),
                    depth,
                    path,
                    from + 1,
                    upto,
                    context,
                ),
                None => Err(Failure::UndefinedReference),
            },
            DeclStackItem::Class(class) => match class_shared(class, path@[from].text()) {
                Some((visibility, next)) => if allowed(
                    visibility,
                    ClassRef { class, depth: depth as usize },
                    context,
                ) {
                    descend((next, reached.1, Some(class)), depth, path, from + 1, upto, context)
                } else {
                    Err(Failure::AccessViolation)
                },
                None => Err(Failure::UndefinedReference),
            },
            DeclStackItem::Function(_) => Err(Failure::TypeMismatch),
        }
    }
}

/// The declaration that the first `upto` identifiers of a qualified name lead to, for code
/// that belongs to the namespaces of `chain`, with where it is at home. What a namespace
/// declares counts as declared in the scope that declares the outermost namespace around it.
pub open spec fn qualified<'a>(
    path: &'a Vec<Identifier>,
    upto: int,
    declarations: Seq<Frame<DeclStackItem<'a>>>,
    home: int,
    chain: Seq<&'a Namespace>,
    context: Seq<ClassRef<'a>>,
) -> Result<(Origin<'a>, Reached<'a>), Failure> {
    if path@.len() == 0 {
        Err(Failure::UndefinedReference)
    } else {
        match lookup(path@[0].text(), declarations, home, chain) {
            None => Err(Failure::UndefinedReference),
            Some((origin, first)) => match descend(
                (first, origin.chain, None),
                origin.depth,
                path,
                1,
                upto,
                context,
            ) {
                Ok(reached) => Ok(
                    (
                        if reached.1.len() > origin.chain.len() {
                            Origin { depth: origin.depth, home: origin.depth, chain: reached.1 }
                        } else {
                            origin
                        },
                        reached,
                    ),
                ),
                Err(failure) => Err(failure),
            },
        }
    }
}

/// The namespaces to which the class at the given place of the lineage of the instance
/// with the given handle belongs.
pub open spec fn instance_chain<'a>(state: State<'a>, handle: nat, at: int) -> Seq<&'a Namespace> {
    if handle < state.heap.len() {
        chain_of(state.heap[handle as int], at)
    } else {
        Seq::empty()
    }
}

/// The namespaces to which the class at the given place of the lineage of an instance
/// belongs.
pub open spec fn chain_of<'a>(instance: InstanceModel<'a>, at: int) -> Seq<&'a Namespace> {
    if 0 <= at < instance.chains.len() {
        instance.chains[at]
    } else {
        Seq::empty()
    }
}

/// The lineage of a class: the class itself, which is at home at the given depth in the
/// namespaces of `chain`, and its bases, the nearest first, each with its namespaces, after
/// the classes that are there already. A base is looked for as code of the namespaces of the
/// class sees it that belongs to no class, from the scope of the class outwards.
pub open spec fn lineage_of<'a>(
    class: &'a Class,
    depth: int,
    chain: Seq<&'a Namespace>,
    declarations: Seq<Frame<DeclStackItem<'a>>>,
    found: (Seq<ClassRef<'a>>, Seq<Seq<&'a Namespace>>),
    limit: nat,
) -> Result<(Seq<ClassRef<'a>>, Seq<Seq<&'a Namespace>>), Unrelated>
    decreases limit,
{
    let longer = (found.0.push(ClassRef { class, depth: depth as usize }), found.1.push(chain));
    match &class.extends {
        None => Ok(longer),
        Some(name) => if limit == 0 {
            Err(Unrelated::Exhausted)
        } else {
            match qualified(
                &name.0,
                name.0@.len() as int,
                declarations.take(depth + 1),
                depth,
                chain,
                Seq::empty(),
            ) {
                Err(failure) => Err(Unrelated::Failed(failure)),
                Ok((origin, (DeclStackItem::Class(base), _, _))) => lineage_of(
                    base,
                    origin.depth,
                    origin.chain,
                    declarations,
                    longer,
                    (limit - 1) as nat,
                ),
                Ok(_) => Err(Unrelated::Failed(Failure::TypeMismatch)),
            }
        },
    }
}

/// The state after `print` has been called with the values.
pub open spec fn print_all<'a>(values: Seq<Value>, from: int, state: State<'a>) -> State<'a>
    decreases values.len() - from,
{
    if from < 0 || from >= values.len() {
        state
    } else {
        print_all(values, from + 1, state.print(values[from]))
    }
}

/// The value of an expression.
pub open spec fn evaluate<'a>(
    expression: &'a Expression,
    state: State<'a>,
    answers: Seq<HostAnswer<TValue>>,
    fuel: nat,
) -> Step<'a>
    decreases fuel, 0nat,
{
    if fuel == 0 {
        (state, Err(Interrupt::Exhausted))
    } else {
        let fuel = (fuel - 1) as nat;
        match expression {
            Expression::Literal(literal) => evaluate_literal(literal, state, answers, fuel),
            Expression::Group(Group::Rounded(inner)) => evaluate(&**inner, state, answers, fuel),
            Expression::Group(Group::Square(inner)) => evaluate(&**inner, state, answers, fuel),
            Expression::Group(Group::Curly(inner)) => evaluate(&**inner, state, answers, fuel),
            Expression::UnaryOperation(operation) => {
                let (after, operand) = evaluate(&*operation.expression, state, answers, fuel);
                match value_of(operand) {
                    Some(found) => (
                        after,
                        match found.unary(operation.operator) {
                            Ok(result) => value(result),
                            Err(failure) => thrown(failure),
                        },
                    ),
                    None => (after, operand),
                }
            },
            Expression::BinaryOperation(operation) => evaluate_binary(
                operation,
                state,
                answers,
                fuel,
            ),
            Expression::FunctionCall(call) => evaluate_call(call, state, answers, fuel),
            Expression::ItemAccess(access) => {
                let (first, container) = evaluate(&*access.set, state, answers, fuel);
                match value_of(container) {
                    Some(set) => {
                        let (second, index) = evaluate(&*access.index, first, answers, fuel);
                        match value_of(index) {
                            Some(at) => (
                                second,
                                match item_of(set, at) {
                                    Ok(found) => value(found),
                                    Err(failure) => thrown(failure),
                                },
                            ),
                            None => (second, index),
                        }
                    },
                    None => (first, container),
                }
            },
            Expression::MemberAccess(access) => {
                let (after, container) = evaluate(&*access.expression, state, answers, fuel);
                match value_of(container) {
                    Some(set) => (
                        after,
                        match member_of(set, access.identifier.text(), after) {
                            Ok(found) => value(found),
                            Err(failure) => thrown(failure),
                        },
                    ),
                    None => (after, container),
                }
            },
            Expression::Name(name) => (state, name_value(&name.0, state)),
        }
    }
}

/// The value of a literal. The items of an array and the entries of a dictionary are
/// evaluated in order; a key that comes twice keeps its place and takes the later value.
pub open spec fn evaluate_literal<'a>(
    literal: &'a Literal,
    state: State<'a>,
    answers: Seq<HostAnswer<TValue>>,
    fuel: nat,
) -> Step<'a>
    decreases fuel, 0nat,
{
    if fuel == 0 {
        (state, Err(Interrupt::Exhausted))
    } else {
        let fuel = (fuel - 1) as nat;
        match literal {
            Literal::Null => (state, value(Value::Null)),
            Literal::Boolean(b) => (state, value(Value::Boolean(*b))),
            Literal::Integer(n) => (state, value(Value::Number(*n))),
            Literal::Real(bits) => (state, value(Value::Real(*bits))),
            Literal::String(text) => (state, value(Value::String(text@))),
            Literal::Array(items) => {
                let (after, result) = evaluate_all(items, 0, Seq::empty(), state, answers, fuel);
                (
                    after,
                    match result {
                        Ok(values) => value(Value::Array(values)),
                        Err(stopped) => stopped,
                    },
                )
            },
            Literal::Dictionary(entries) => {
                let (after, result) = evaluate_entries(
                    entries,
                    0,
                    Seq::empty(),
                    state,
                    answers,
                    fuel,
                );
                (
                    after,
                    match result {
                        Ok(found) => value(Value::Dictionary(found)),
                        Err(stopped) => stopped,
                    },
                )
            },
            Literal::Lambda => (state, thrown(Failure::TypeMismatch)),
        }
    }
}

/// The values of the expressions from the given one on, after those that are there already.
/// The first expression that gives no value ends the evaluation with its result.
pub open spec fn evaluate_all<'a>(
    expressions: &'a Vec<Expression>,
    from: int,
    values: Seq<Value>,
    state: State<'a>,
    answers: Seq<HostAnswer<TValue>>,
    fuel: nat,
) -> (State<'a>, Result<Seq<Value>, Flow<'a, Value>>)
    decreases fuel, expressions@.len() - from,
{
    if from < 0 || from >= expressions@.len() {
        (state, Ok(values))
    } else if fuel == 0 {
        (state, Err(Err(Interrupt::Exhausted)))
    } else {
        let (after, result) = evaluate(&expressions@[from], state, answers, (fuel - 1) as nat);
        match value_of(result) {
            Some(found) => evaluate_all(
                expressions,
                from + 1,
                values.push(found),
                after,
                answers,
                fuel,
            ),
            None => (after, Err(result)),
        }
    }
}

/// The entries of a dictionary literal from the given one on, after those that are there
/// already.
pub open spec fn evaluate_entries<'a>(
    entries: &'a Vec<(String, Expression)>,
    from: int,
    found: Seq<(Seq<char>, Value)>,
    state: State<'a>,
    answers: Seq<HostAnswer<TValue>>,
    fuel: nat,
) -> (State<'a>, Result<Seq<(Seq<char>, Value)>, Flow<'a, Value>>)
    decreases fuel, entries@.len() - from,
{
    if from < 0 || from >= entries@.len() {
        (state, Ok(found))
    } else if fuel == 0 {
        (state, Err(Err(Interrupt::Exhausted)))
    } else {
        let (after, result) = evaluate(&entries@[from].1, state, answers, (fuel - 1) as nat);
        match value_of(result) {
            Some(item) => evaluate_entries(
                entries,
                from + 1,
                with_entry(found, entries@[from].0@, item),
                after,
                answers,
                fuel,
            ),
            None => (after, Err(result)),
        }
    }
}

/// The values of the arguments of a call from the given one on, in the order in which they
/// are written, after those that are there already.
pub open spec fn evaluate_arguments<'a>(
    arguments: &'a Vec<FunctionCallArgument>,
    from: int,
    values: Seq<Value>,
    state: State<'a>,
    answers: Seq<HostAnswer<TValue>>,
    fuel: nat,
) -> (State<'a>, Result<Seq<Value>, Flow<'a, Value>>)
    decreases fuel, arguments@.len() - from,
{
    if from < 0 || from >= arguments@.len() {
        (state, Ok(values))
    } else if fuel == 0 {
        (state, Err(Err(Interrupt::Exhausted)))
    } else {
        let (after, result) = evaluate(
            &arguments@[from].expression,
            state,
            answers,
            (fuel - 1) as nat,
        );
        match value_of(result) {
            Some(found) => evaluate_arguments(
                arguments,
                from + 1,
                values.push(found),
                after,
                answers,
                fuel,
            ),
            None => (after, Err(result)),
        }
    }
}

/// The value of a binary operation. The left operand is evaluated first. `And` and `Or` take
/// booleans and leave the right operand alone where the left one decides.
pub open spec fn evaluate_binary<'a>(
    operation: &'a BinaryOperation,
    state: State<'a>,
    answers: Seq<HostAnswer<TValue>>,
    fuel: nat,
) -> Step<'a>
    decreases fuel, 0nat,
{
    if fuel == 0 {
        (state, Err(Interrupt::Exhausted))
    } else {
        let fuel = (fuel - 1) as nat;
        let operator = operation.operator;
        let (first, left) = evaluate(&*operation.left, state, answers, fuel);
        match value_of(left) {
            None => (first, left),
            Some(l) => if operator is And || operator is Or {
                match l {
                    Value::Boolean(decided) => if decided == (operator is Or) {
                        (first, value(l))
                    } else {
                        let (second, right) = evaluate(&*operation.right, first, answers, fuel);
                        match value_of(right) {
                            None => (second, right),
                            Some(Value::Boolean(r)) => (second, value(Value::Boolean(r))),
                            Some(_) => (
                                second,
                                thrown(Failure::OperationNotPossible(binary_name(operator))),
                            ),
                        }
                    },
                    _ => (first, thrown(Failure::OperationNotPossible(binary_name(operator)))),
                }
            } else {
                let (second, right) = evaluate(&*operation.right, first, answers, fuel);
                match value_of(right) {
                    None => (second, right),
                    Some(r) => operate(l, r, operator, second, answers),
                }
            },
        }
    }
}

/// The value of a call.
///
/// The callee is a name or a member of an object. A name that names a variable cannot be
/// called. In the code of a class it names a method of the instance first. Otherwise the
/// innermost declaration of the name decides: a function is called, a class gets a new
/// instance. Where nothing of the name is declared, `print` is the function that the engine
/// brings along, and a name that the host has made known is the host's to call. The
/// last identifier of a longer name is a method of what the identifiers before it lead to.
pub open spec fn evaluate_call<'a>(
    call: &'a FunctionCall,
    state: State<'a>,
    answers: Seq<HostAnswer<TValue>>,
    fuel: nat,
) -> Step<'a>
    decreases fuel, 0nat,
{
    if fuel == 0 {
        (state, Err(Interrupt::Exhausted))
    } else {
        let fuel = (fuel - 1) as nat;
        match &*call.expression {
            Expression::Name(name) => if name.0@.len() == 1 {
                call_name(&name.0@[0], call, state, answers, fuel)
            } else {
                match place_of_name(&name.0, state) {
                    Err(Failure::TypeMismatch) => call_qualified(name, call, state, answers, fuel),
                    Err(failure) => (state, thrown(failure)),
                    Ok((root, steps)) => if steps.len() == 0 {
                        (state, thrown(Failure::TypeMismatch))
                    } else {
                        match root_value(root, state) {
                            None => (state, thrown(Failure::UndefinedReference)),
                            Some(start) => match read_path(start, steps.drop_last(), 0, state) {
                                Err(failure) => (state, thrown(failure)),
                                Ok(target) => call_member(
                                    target,
                                    &name.0@[name.0@.len() - 1],
                                    call,
                                    state,
                                    answers,
                                    fuel,
                                ),
                            },
                        }
                    },
                }
            },
            Expression::MemberAccess(access) => {
                let (after, container) = evaluate(&*access.expression, state, answers, fuel);
                match value_of(container) {
                    Some(target) => call_member(
                        target,
                        &access.identifier,
                        call,
                        after,
                        answers,
                        fuel,
                    ),
                    None => (after, container),
                }
            },
            _ => (state, thrown(Failure::TypeMismatch)),
        }
    }
}

/// The value of a call whose callee is a qualified name that starts at a declaration: a
/// function is called, a class gets a new instance. A function that a class declares for all
/// its instances together runs as code of that class, on no instance.
pub open spec fn call_qualified<'a>(
    name: &'a Name,
    call: &'a FunctionCall,
    state: State<'a>,
    answers: Seq<HostAnswer<TValue>>,
    fuel: nat,
) -> Step<'a>
    decreases fuel, 0nat,
{
    if fuel == 0 {
        (state, Err(Interrupt::Exhausted))
    } else {
        let fuel = (fuel - 1) as nat;
        match qualified(
            &name.0,
            name.0@.len() as int,
            state.declarations,
            state.home as int,
            state.chain,
            state.context,
        ) {
            Err(failure) => (state, thrown(failure)),
            Ok((origin, (DeclStackItem::Function(function), _, owner))) => {
                let (after, arguments) = evaluate_arguments(
                    &call.arguments,
                    0,
                    Seq::empty(),
                    state,
                    answers,
                    fuel,
                );
                match arguments {
                    Err(stopped) => (after, stopped),
                    Ok(values) => match place_arguments(
                        function.parameters@,
                        argument_names(call.arguments@),
                        values,
                        0,
                        0,
                        no_slots(function.parameters@),
                    ) {
                        Err(failure) => (after, thrown(failure)),
                        Ok(slots) => match owner {
                            None => call_function(
                                function,
                                origin,
                                None,
                                Seq::empty(),
                                slots,
                                after,
                                answers,
                                fuel,
                            ),
                            Some(class) => match lineage_of(
                                class,
                                origin.depth,
                                origin.chain,
                                after.declarations,
                                (Seq::empty(), Seq::empty()),
                                fuel,
                            ) {
                                Err(Unrelated::Exhausted) => (after, Err(Interrupt::Exhausted)),
                                Err(Unrelated::Failed(failure)) => (after, thrown(failure)),
                                Ok((lineage, _)) => call_function(
                                    function,
                                    origin,
                                    None,
                                    lineage,
                                    slots,
                                    after,
                                    answers,
                                    fuel,
                                ),
                            },
                        },
                    },
                }
            },
            Ok((origin, (DeclStackItem::Class(class), _, _))) => instantiate(
                class,
                origin,
                call,
                state,
                answers,
                fuel,
            ),
            Ok(_) => (state, thrown(Failure::TypeMismatch)),
        }
    }
}

/// The value of a call whose callee is a single identifier.
pub open spec fn call_name<'a>(
    name: &'a Identifier,
    call: &'a FunctionCall,
    state: State<'a>,
    answers: Seq<HostAnswer<TValue>>,
    fuel: nat,
) -> Step<'a>
    decreases fuel, 0nat,
{
    if fuel == 0 {
        (state, Err(Interrupt::Exhausted))
    } else if state.variable(name.text()) is Some {
        (state, thrown(Failure::TypeMismatch))
    } else if state.receiver is Some && state.receiver.unwrap() < state.heap.len()
        && lineage_method(state.heap[state.receiver.unwrap() as int].lineage, name.text(), 0)
        is Some {
        call_member(
            Value::Object(state.receiver.unwrap()),
            name,
            call,
            state,
            answers,
            (fuel - 1) as nat,
        )
    } else {
        let fuel = (fuel - 1) as nat;
        match lookup(name.text(), state.declarations, state.home as int, state.chain) {
            Some((origin, DeclStackItem::Function(function))) => {
                let (after, arguments) = evaluate_arguments(
                    &call.arguments,
                    0,
                    Seq::empty(),
                    state,
                    answers,
                    fuel,
                );
                match arguments {
                    Err(stopped) => (after, stopped),
                    Ok(values) => match place_arguments(
                        function.parameters@,
                        argument_names(call.arguments@),
                        values,
                        0,
                        0,
                        no_slots(function.parameters@),
                    ) {
                        Err(failure) => (after, thrown(failure)),
                        Ok(slots) => call_function(
                            function,
                            origin,
                            None,
                            Seq::empty(),
                            slots,
                            after,
                            answers,
                            fuel,
                        ),
                    },
                }
            },
            Some((origin, DeclStackItem::Class(class))) => instantiate(
                class,
                origin,
                call,
                state,
                answers,
                fuel,
            ),
            Some(_) => (state, thrown(Failure::TypeMismatch)),
            None => if name.text() == "print"@ {
                let (after, arguments) = evaluate_arguments(
                    &call.arguments,
                    0,
                    Seq::empty(),
                    state,
                    answers,
                    fuel,
                );
                match arguments {
                    Err(stopped) => (after, stopped),
                    Ok(values) => (print_all(values, 0, after), value(Value::Null)),
                }
            } else if offers(state.builtins, name.text()) {
                let (after, arguments) = evaluate_arguments(
                    &call.arguments,
                    0,
                    Seq::empty(),
                    state,
                    answers,
                    fuel,
                );
                match arguments {
                    Err(stopped) => (after, stopped),
                    Ok(values) => {
                        let (last, answer) = ask(
                            HostRequest::Call { name, arguments: Value::Array(values) },
                            after,
                            answers,
                        );
                        (
                            last,
                            match answer {
                                Ok(HostAnswer::Value(result)) => value(result),
                                Ok(HostAnswer::Failure(failure)) => Ok(Completion::Throw(failure)),
                                Err(interrupt) => Err(interrupt),
                            },
                        )
                    },
                }
            } else {
                (state, thrown(Failure::UndefinedReference))
            },
        }
    }
}

/// The value of a call of a method of an object. The method is that of the nearest class of
/// the instance that declares one of the name, and has to be open to the code that is
/// running. It runs on top of the scope that declares its class.
pub open spec fn call_member<'a>(
    target: Value,
    name: &'a Identifier,
    call: &'a FunctionCall,
    state: State<'a>,
    answers: Seq<HostAnswer<TValue>>,
    fuel: nat,
) -> Step<'a>
    decreases fuel, 0nat,
{
    if fuel == 0 {
        (state, Err(Interrupt::Exhausted))
    } else {
        let fuel = (fuel - 1) as nat;
        match target {
            Value::Object(handle) => if handle >= state.heap.len() {
                (state, thrown(Failure::UndefinedReference))
            } else {
                let lineage = state.heap[handle as int].lineage;
                match lineage_method(lineage, name.text(), 0) {
                    None => (state, thrown(Failure::UndefinedReference)),
                    Some((at, visibility, function)) => if !allowed(
                        visibility,
                        lineage[at],
                        state.context,
                    ) {
                        (state, thrown(Failure::AccessViolation))
                    } else if lineage[at].depth >= state.depth() {
                        (state, thrown(Failure::UndefinedReference))
                    } else {
                        let (after, arguments) = evaluate_arguments(
                            &call.arguments,
                            0,
                            Seq::empty(),
                            state,
                            answers,
                            fuel,
                        );
                        match arguments {
                            Err(stopped) => (after, stopped),
                            Ok(values) => match place_arguments(
                                function.parameters@,
                                argument_names(call.arguments@),
                                values,
                                0,
                                0,
                                no_slots(function.parameters@),
                            ) {
                                Err(failure) => (after, thrown(failure)),
                                Ok(slots) => call_function(
                                    function,
                                    Origin {
                                        depth: lineage[at].depth as int,
                                        home: lineage[at].depth as int,
                                        chain: chain_of(state.heap[handle as int], at),
                                    },
                                    Some(handle),
                                    lineage.skip(at),
                                    slots,
                                    after,
                                    answers,
                                    fuel,
                                ),
                            },
                        }
                    },
                }
            },
            _ => (state, thrown(Failure::TypeMismatch)),
        }
    }
}

/// A call of a function or a method, with where it is at home and what each parameter gets.
/// The body runs in a new scope on top of the scope of the declaration; the scopes of the
/// caller that lie further in are out of its sight, and are back when the call is over.
pub open spec fn call_function<'a>(
    function: &'a Function,
    origin: Origin<'a>,
    receiver: Option<nat>,
    context: Seq<ClassRef<'a>>,
    slots: Seq<Option<Value>>,
    state: State<'a>,
    answers: Seq<HostAnswer<TValue>>,
    fuel: nat,
) -> Step<'a>
    decreases fuel, 0nat,
{
    if fuel == 0 {
        (state, Err(Interrupt::Exhausted))
    } else {
        let fuel = (fuel - 1) as nat;
        let (bound, binding) = bind_parameters(
            &function.parameters,
            slots,
            0,
            call_state(state, origin.depth, origin.home, origin.chain, receiver, context),
            answers,
            fuel,
        );
        let (after, body) = match binding {
            Ok(Completion::Normal(_)) => run_body(&function.body, bound, answers, fuel),
            _ => (bound, binding),
        };
        (return_state(after, state, origin.depth), call_result(body))
    }
}

/// Binds the parameters from the given one on, as variables of the innermost scope: each
/// to the argument it got or else to the value of its default. A parameter with neither
/// ends the call with a thrown `TypeMismatch`.
pub open spec fn bind_parameters<'a>(
    parameters: &'a Vec<Parameter>,
    slots: Seq<Option<Value>>,
    from: int,
    state: State<'a>,
    answers: Seq<HostAnswer<TValue>>,
    fuel: nat,
) -> Step<'a>
    decreases fuel, parameters@.len() - from,
{
    if from < 0 || from >= parameters@.len() {
        (state, done())
    } else if fuel == 0 {
        (state, Err(Interrupt::Exhausted))
    } else {
        let parameter = &parameters@[from];
        let (after, given) = if from < slots.len() && slots[from] is Some {
            (state, value(slots[from].unwrap()))
        } else {
            match &parameter.expression {
                Some(default) => evaluate(default, state, answers, (fuel - 1) as nat),
                None => (state, thrown(Failure::TypeMismatch)),
            }
        };
        match value_of(given) {
            None => (after, given),
            Some(argument) => if after.binds_here(parameter.identifier.text()) {
                (after, Err(Interrupt::Conflict(&parameter.identifier)))
            } else {
                bind_parameters(
                    parameters,
                    slots,
                    from + 1,
                    after.bind(parameter.identifier.text(), argument),
                    answers,
                    fuel,
                )
            },
        }
    }
}

/// The value of a call of a class, which is at home at `origin`: a new instance. The
/// arguments are evaluated first. The instance gets the fields of its class and of all its
/// bases, each set to null, and is then set up by the constructors.
pub open spec fn instantiate<'a>(
    class: &'a Class,
    origin: Origin<'a>,
    call: &'a FunctionCall,
    state: State<'a>,
    answers: Seq<HostAnswer<TValue>>,
    fuel: nat,
) -> Step<'a>
    decreases fuel, 0nat,
{
    if fuel == 0 {
        (state, Err(Interrupt::Exhausted))
    } else {
        let fuel = (fuel - 1) as nat;
        let (after, arguments) = evaluate_arguments(
            &call.arguments,
            0,
            Seq::empty(),
            state,
            answers,
            fuel,
        );
        match arguments {
            Err(stopped) => (after, stopped),
            Ok(values) => match lineage_of(
                class,
                origin.depth,
                origin.chain,
                after.declarations,
                (Seq::empty(), Seq::empty()),
                fuel,
            ) {
                Err(Unrelated::Exhausted) => (after, Err(Interrupt::Exhausted)),
                Err(Unrelated::Failed(failure)) => (after, thrown(failure)),
                Ok((lineage, chains)) => {
                    let handle = after.heap.len();
                    let made = State {
                        heap: after.heap.push(
                            InstanceModel {
                                lineage,
                                chains,
                                fields: with_lineage(Seq::empty(), lineage, lineage.len() as int),
                            },
                        ),
                        ..after
                    };
                    let (last, outcome) = construct(
                        handle,
                        lineage,
                        0,
                        argument_names(call.arguments@),
                        values,
                        made,
                        answers,
                        fuel,
                    );
                    match outcome {
                        Ok(Completion::Normal(_)) => (last, value(Value::Object(handle))),
                        _ => (last, outcome),
                    }
                },
            },
        }
    }
}

/// Sets up an instance as one of the class at the given place of its lineage.
///
/// Where the class has a constructor, its parameters are bound to the arguments and the
/// arguments for the base are evaluated; where it has none, it takes no argument and gives
/// none to its base. Then the base sets up the instance, then the fields of the class get
/// the values of their initializers, and at last the body of the constructor runs. All of it
/// runs on the instance, as code of the class, on top of the scope that declares the class.
/// The constructor of the class that is called from outside has to be open to the caller.
pub open spec fn construct<'a>(
    handle: nat,
    lineage: Seq<ClassRef<'a>>,
    level: int,
    names: Seq<Option<Seq<char>>>,
    values: Seq<Value>,
    state: State<'a>,
    answers: Seq<HostAnswer<TValue>>,
    fuel: nat,
) -> Step<'a>
    decreases fuel, 0nat,
{
    if level < 0 || level >= lineage.len() {
        (state, done())
    } else if fuel == 0 {
        (state, Err(Interrupt::Exhausted))
    } else {
        let fuel = (fuel - 1) as nat;
        let own = lineage[level];
        if own.depth >= state.depth() {
            (state, thrown(Failure::UndefinedReference))
        } else {
            match class_constructor(own.class) {
                Some((visibility, constructor)) => if level == 0 && !allowed(
                    visibility,
                    own,
                    state.context,
                ) {
                    (state, thrown(Failure::AccessViolation))
                } else {
                    match place_arguments(
                        constructor.parameters@,
                        names,
                        values,
                        0,
                        0,
                        no_slots(constructor.parameters@),
                    ) {
                        Err(failure) => (state, thrown(failure)),
                        Ok(slots) => {
                            let (bound, binding) = bind_parameters(
                                &constructor.parameters,
                                slots,
                                0,
                                call_state(
                                    state,
                                    own.depth as int,
                                    own.depth as int,
                                    instance_chain(state, handle, level),
                                    Some(handle),
                                    lineage.skip(level),
                                ),
                                answers,
                                fuel,
                            );
                            let (based, basing) = match binding {
                                Ok(Completion::Normal(_)) => {
                                    let (passed, supers) = evaluate_all(
                                        &constructor.super_parameters,
                                        0,
                                        Seq::empty(),
                                        bound,
                                        answers,
                                        fuel,
                                    );
                                    match supers {
                                        Err(stopped) => (passed, stopped),
                                        Ok(given) => construct(
                                            handle,
                                            lineage,
                                            level + 1,
                                            Seq::empty(),
                                            given,
                                            passed,
                                            answers,
                                            fuel,
                                        ),
                                    }
                                },
                                _ => (bound, binding),
                            };
                            let (filled, filling) = match basing {
                                Ok(Completion::Normal(_)) => initialize_class(
                                    handle,
                                    own.class,
                                    based,
                                    answers,
                                    fuel,
                                ),
                                _ => (based, basing),
                            };
                            let (after, body) = match filling {
                                Ok(Completion::Normal(_)) => run_body(
                                    &constructor.body,
                                    filled,
                                    answers,
                                    fuel,
                                ),
                                _ => (filled, filling),
                            };
                            (
                                return_state(after, state, own.depth as int),
                                constructor_result(body),
                            )
                        },
                    }
                },
                None => if values.len() > 0 {
                    (state, thrown(Failure::TypeMismatch))
                } else {
                    let (based, basing) = construct(
                        handle,
                        lineage,
                        level + 1,
                        Seq::empty(),
                        Seq::empty(),
                        call_state(
                            state,
                            own.depth as int,
                            own.depth as int,
                            instance_chain(state, handle, level),
                            Some(handle),
                            lineage.skip(level),
                        ),
                        answers,
                        fuel,
                    );
                    let (after, filling) = match basing {
                        Ok(Completion::Normal(_)) => initialize_class(
                            handle,
                            own.class,
                            based,
                            answers,
                            fuel,
                        ),
                        _ => (based, basing),
                    };
                    (return_state(after, state, own.depth as int), constructor_result(filling))
                },
            }
        }
    }
}

/// Gives the fields that the class declares the values of their initializers.
pub open spec fn initialize_class<'a>(
    handle: nat,
    class: &'a Class,
    state: State<'a>,
    answers: Seq<HostAnswer<TValue>>,
    fuel: nat,
) -> Step<'a>
    decreases fuel, 0nat,
{
    if fuel == 0 {
        (state, Err(Interrupt::Exhausted))
    } else {
        let fuel = (fuel - 1) as nat;
        let (first, open) = initialize_items(handle, &class.public_items, 0, state, answers, fuel);
        match open {
            Ok(Completion::Normal(_)) => {
                let (second, guarded) = initialize_items(
                    handle,
                    &class.protected_items,
                    0,
                    first,
                    answers,
                    fuel,
                );
                match guarded {
                    Ok(Completion::Normal(_)) => initialize_items(
                        handle,
                        &class.private_items,
                        0,
                        second,
                        answers,
                        fuel,
                    ),
                    _ => (second, guarded),
                }
            },
            _ => (first, open),
        }
    }
}

/// Gives the fields that the items declare, from the given item on, the values of their
/// initializers.
pub open spec fn initialize_items<'a>(
    handle: nat,
    items: &'a Vec<ClassItem>,
    from: int,
    state: State<'a>,
    answers: Seq<HostAnswer<TValue>>,
    fuel: nat,
) -> Step<'a>
    decreases fuel, items@.len() - from,
{
    if from < 0 || from >= items@.len() {
        (state, done())
    } else if fuel == 0 {
        (state, Err(Interrupt::Exhausted))
    } else {
        match &items@[from] {
            ClassItem::Declaration(Declaration::Variable(variables)) => {
                let (after, outcome) = initialize_variables(
                    handle,
                    variables,
                    0,
                    state,
                    answers,
                    (fuel - 1) as nat,
                );
                match outcome {
                    Ok(Completion::Normal(_)) => initialize_items(
                        handle,
                        items,
                        from + 1,
                        after,
                        answers,
                        fuel,
                    ),
                    _ => (after, outcome),
                }
            },
            _ => initialize_items(handle, items, from + 1, state, answers, fuel),
        }
    }
}

/// Gives the fields that the variables stand for, from the given one on, the values of their
/// initializers. A field without an initializer keeps what it has.
pub open spec fn initialize_variables<'a>(
    handle: nat,
    variables: &'a Vec<Variable>,
    from: int,
    state: State<'a>,
    answers: Seq<HostAnswer<TValue>>,
    fuel: nat,
) -> Step<'a>
    decreases fuel, variables@.len() - from,
{
    if from < 0 || from >= variables@.len() {
        (state, done())
    } else if fuel == 0 {
        (state, Err(Interrupt::Exhausted))
    } else {
        match &variables@[from].expression {
            None => initialize_variables(handle, variables, from + 1, state, answers, fuel),
            Some(expression) => {
                let (after, initial) = evaluate(expression, state, answers, (fuel - 1) as nat);
                match value_of(initial) {
                    None => (after, initial),
                    Some(found) => initialize_variables(
                        handle,
                        variables,
                        from + 1,
                        State {
                            heap: with_field(
                                after.heap,
                                handle,
                                variables@[from].identifier.text(),
                                found,
                            ),
                            ..after
                        },
                        answers,
                        fuel,
                    ),
                }
            },
        }
    }
}

/// What an expression stands for as the target of an assignment.
pub open spec fn evaluate_place<'a>(
    expression: &'a Expression,
    state: State<'a>,
    answers: Seq<HostAnswer<TValue>>,
    fuel: nat,
) -> (State<'a>, Result<Place<'a, Value>, Flow<'a, Value>>)
    decreases fuel, 0nat,
{
    if fuel == 0 {
        (state, Err(Err(Interrupt::Exhausted)))
    } else {
        let fuel = (fuel - 1) as nat;
        match expression {
            Expression::Name(name) => (
                state,
                match place_of_name(&name.0, state) {
                    Ok(place) => Ok(place),
                    Err(failure) => Err(thrown(failure)),
                },
            ),
            Expression::Group(Group::Rounded(inner)) => evaluate_place(
                &**inner,
                state,
                answers,
                fuel,
            ),
            Expression::Group(Group::Square(inner)) => evaluate_place(
                &**inner,
                state,
                answers,
                fuel,
            ),
            Expression::Group(Group::Curly(inner)) => evaluate_place(&**inner, state, answers, fuel),
            Expression::ItemAccess(access) => item_place(access, state, answers, fuel),
            Expression::MemberAccess(access) => member_place(access, state, answers, fuel),
            _ => {
                let (after, result) = evaluate(expression, state, answers, fuel);
                (
                    after,
                    match value_of(result) {
                        Some(found) => Ok((Root::Value(found), Seq::empty())),
                        None => Err(result),
                    },
                )
            },
        }
    }
}

/// What an item of a container stands for as the target of an assignment.
pub open spec fn item_place<'a>(
    access: &'a ItemAccess,
    state: State<'a>,
    answers: Seq<HostAnswer<TValue>>,
    fuel: nat,
) -> (State<'a>, Result<Place<'a, Value>, Flow<'a, Value>>)
    decreases fuel, 0nat,
{
    if fuel == 0 {
        (state, Err(Err(Interrupt::Exhausted)))
    } else {
        let fuel = (fuel - 1) as nat;
        let (first, container) = evaluate_place(&*access.set, state, answers, fuel);
        match container {
            Err(stopped) => (first, Err(stopped)),
            Ok((root, steps)) => {
                let (second, index) = evaluate(&*access.index, first, answers, fuel);
                (
                    second,
                    match value_of(index) {
                        Some(at) => Ok((root, steps.push(Selector::Index(at)))),
                        None => Err(index),
                    },
                )
            },
        }
    }
}

/// What a member of a container stands for as the target of an assignment.
pub open spec fn member_place<'a>(
    access: &'a MemberAccess,
    state: State<'a>,
    answers: Seq<HostAnswer<TValue>>,
    fuel: nat,
) -> (State<'a>, Result<Place<'a, Value>, Flow<'a, Value>>)
    decreases fuel, 0nat,
{
    if fuel == 0 {
        (state, Err(Err(Interrupt::Exhausted)))
    } else {
        let (after, container) = evaluate_place(
            &*access.expression,
            state,
            answers,
            (fuel - 1) as nat,
        );
        (
            after,
            match container {
                Err(stopped) => Err(stopped),
                Ok((root, steps)) => Ok((root, steps.push(Selector::Member(&access.identifier)))),
            },
        )
    }
}

/// The outcome of a statement.
pub open spec fn run<'a>(
    statement: &'a Statement,
    state: State<'a>,
    answers: Seq<HostAnswer<TValue>>,
    fuel: nat,
) -> Step<'a>
    decreases fuel, 0nat,
{
    if fuel == 0 {
        (state, Err(Interrupt::Exhausted))
    } else {
        let fuel = (fuel - 1) as nat;
        match statement {
            Statement::Block(block) => run_block(block, state, answers, fuel),
            Statement::Assignment(assignment) => run_assignment(assignment, state, answers, fuel),
            Statement::Expression(expression) => {
                let (after, result) = evaluate(expression, state, answers, fuel);
                match result {
                    Ok(Completion::Normal(_)) => (after, done()),
                    _ => (after, result),
                }
            },
            Statement::Condition(condition) => {
                let (after, guard) = evaluate(&condition.expression, state, answers, fuel);
                match value_of(guard) {
                    None => (after, guard),
                    Some(Value::Boolean(true)) => run(&*condition.do_then, after, answers, fuel),
                    Some(Value::Boolean(false)) => match &condition.do_else {
                        Some(otherwise) => run(&**otherwise, after, answers, fuel),
                        None => (after, done()),
                    },
                    Some(_) => (after, thrown(Failure::TypeMismatch)),
                }
            },
            Statement::ForLoop(for_loop) => {
                let (after, source) = evaluate(&for_loop.expression, state, answers, fuel);
                match value_of(source) {
                    None => (after, source),
                    Some(Value::Array(items)) => run_for(for_loop, items, 0, after, answers, fuel),
                    Some(_) => (after, thrown(Failure::TypeMismatch)),
                }
            },
            Statement::WhileDoLoop(while_loop) => run_while(while_loop, state, answers, fuel),
            Statement::DoWhileLoop(while_loop) => run_do_while(while_loop, state, answers, fuel),
            Statement::Break => (state, Ok(Completion::Break)),
            Statement::Continue => (state, Ok(Completion::Continue)),
            Statement::Return(None) => (state, Ok(Completion::Return(None))),
            Statement::Return(Some(expression)) => {
                let (after, result) = evaluate(expression, state, answers, fuel);
                match value_of(result) {
                    Some(found) => (after, Ok(Completion::Return(Some(found)))),
                    None => (after, result),
                }
            },
            Statement::Throw(expression) => {
                let (after, result) = evaluate(expression, state, answers, fuel);
                match value_of(result) {
                    Some(found) => (after, Ok(Completion::Throw(found))),
                    None => (after, result),
                }
            },
            Statement::TryCatch(handler) => {
                let (after, attempt) = run(&*handler.do_try, state, answers, fuel);
                match attempt {
                    Ok(Completion::Throw(caught)) => {
                        let (handled, outcome) = run(
                            &*handler.do_catch,
                            after.enter().bind(handler.error.text(), caught),
                            answers,
                            fuel,
                        );
                        (handled.leave(), outcome)
                    },
                    _ => (after, attempt),
                }
            },
        }
    }
}

/// The outcome of a block: a new scope is opened on both stacks, the items run as a body,
/// and the scope is closed again, however the block ends.
pub open spec fn run_block<'a>(
    block: &'a Block,
    state: State<'a>,
    answers: Seq<HostAnswer<TValue>>,
    fuel: nat,
) -> Step<'a>
    decreases fuel, 0nat,
{
    if fuel == 0 {
        (state, Err(Interrupt::Exhausted))
    } else {
        let (after, outcome) = run_body(&block.0, state.enter(), answers, (fuel - 1) as nat);
        (after.leave(), outcome)
    }
}

/// The outcome of the items of a block, of a function or of a constructor in the scope that
/// was opened for them. First the functions, classes and namespaces among the items are made
/// known; a name that comes twice is a conflict, and nothing has run then. Next the
/// variables that the classes among the items declare for all their instances together are
/// bound. Then the items run in order up to the first that does not end normally.
pub open spec fn run_body<'a>(
    items: &'a Vec<BlockItem>,
    state: State<'a>,
    answers: Seq<HostAnswer<TValue>>,
    fuel: nat,
) -> Step<'a>
    decreases fuel, items@.len() + 1,
{
    let (known, conflict) = hoist(items, 0, state);
    match conflict {
        Some(identifier) => (known, Err(Interrupt::Conflict(identifier))),
        None => {
            let (shared, binding) = bind_shared(items, 0, known, answers, fuel);
            match binding {
                Ok(Completion::Normal(_)) => run_items(items, 0, shared, answers, fuel),
                _ => (shared, binding),
            }
        },
    }
}

/// Binds the variables that the classes among the items, from the given item on, declare for
/// all their instances together.
pub open spec fn bind_shared<'a>(
    items: &'a Vec<BlockItem>,
    from: int,
    state: State<'a>,
    answers: Seq<HostAnswer<TValue>>,
    fuel: nat,
) -> Step<'a>
    decreases fuel, items@.len() - from,
{
    if from < 0 || from >= items@.len() {
        (state, done())
    } else {
        match &items@[from] {
            BlockItem::Declaration(Declaration::Class(class)) => if fuel == 0 {
                (state, Err(Interrupt::Exhausted))
            } else {
                let (after, outcome) = bind_shared_of_class(
                    class,
                    state,
                    answers,
                    (fuel - 1) as nat,
                );
                match outcome {
                    Ok(Completion::Normal(_)) => bind_shared(
                        items,
                        from + 1,
                        after,
                        answers,
                        fuel,
                    ),
                    _ => (after, outcome),
                }
            },
            _ => bind_shared(items, from + 1, state, answers, fuel),
        }
    }
}

/// Binds the variables that a class declares for all its instances together.
pub open spec fn bind_shared_of_class<'a>(
    class: &'a Class,
    state: State<'a>,
    answers: Seq<HostAnswer<TValue>>,
    fuel: nat,
) -> Step<'a>
    decreases fuel, 0nat,
{
    if fuel == 0 {
        (state, Err(Interrupt::Exhausted))
    } else {
        let fuel = (fuel - 1) as nat;
        let (first, open) = bind_shared_items(class, &class.public_items, 0, state, answers, fuel);
        match open {
            Ok(Completion::Normal(_)) => {
                let (second, guarded) = bind_shared_items(
                    class,
                    &class.protected_items,
                    0,
                    first,
                    answers,
                    fuel,
                );
                match guarded {
                    Ok(Completion::Normal(_)) => bind_shared_items(
                        class,
                        &class.private_items,
                        0,
                        second,
                        answers,
                        fuel,
                    ),
                    _ => (second, guarded),
                }
            },
            _ => (first, open),
        }
    }
}

/// Binds the variables that the items of a class, from the given one on, declare for all
/// instances together.
pub open spec fn bind_shared_items<'a>(
    class: &'a Class,
    items: &'a Vec<ClassItem>,
    from: int,
    state: State<'a>,
    answers: Seq<HostAnswer<TValue>>,
    fuel: nat,
) -> Step<'a>
    decreases fuel, items@.len() - from,
{
    if from < 0 || from >= items@.len() {
        (state, done())
    } else {
        match &items@[from] {
            ClassItem::StaticDeclaration(Declaration::Variable(variables)) => if fuel == 0 {
                (state, Err(Interrupt::Exhausted))
            } else {
                let (after, outcome) = bind_shared_variables(
                    class,
                    variables,
                    0,
                    state,
                    answers,
                    (fuel - 1) as nat,
                );
                match outcome {
                    Ok(Completion::Normal(_)) => bind_shared_items(
                        class,
                        items,
                        from + 1,
                        after,
                        answers,
                        fuel,
                    ),
                    _ => (after, outcome),
                }
            },
            _ => bind_shared_items(class, items, from + 1, state, answers, fuel),
        }
    }
}

/// Binds the variables, from the given one on, that a class declares for all its instances
/// together: in the innermost scope, under the name of the class and their own, each with
/// the value of its initializer, or with null where it has none.
pub open spec fn bind_shared_variables<'a>(
    class: &'a Class,
    variables: &'a Vec<Variable>,
    from: int,
    state: State<'a>,
    answers: Seq<HostAnswer<TValue>>,
    fuel: nat,
) -> Step<'a>
    decreases fuel, variables@.len() - from,
{
    if from < 0 || from >= variables@.len() {
        (state, done())
    } else if fuel == 0 {
        (state, Err(Interrupt::Exhausted))
    } else {
        let variable = &variables@[from];
        let key = shared_key(class.identifier.text(), variable.identifier.text());
        let (after, initial) = match &variable.expression {
            Some(expression) => evaluate(expression, state, answers, (fuel - 1) as nat),
            None => (state, value(Value::Null)),
        };
        match value_of(initial) {
            None => (after, initial),
            Some(found) => if after.binds_here(key) {
                (after, Err(Interrupt::Conflict(&variable.identifier)))
            } else {
                bind_shared_variables(
                    class,
                    variables,
                    from + 1,
                    after.bind(key, found),
                    answers,
                    fuel,
                )
            },
        }
    }
}

/// The outcome of the items of a block from the given one on.
pub open spec fn run_items<'a>(
    items: &'a Vec<BlockItem>,
    from: int,
    state: State<'a>,
    answers: Seq<HostAnswer<TValue>>,
    fuel: nat,
) -> Step<'a>
    decreases fuel, items@.len() - from,
{
    if from < 0 || from >= items@.len() {
        (state, done())
    } else if fuel == 0 {
        (state, Err(Interrupt::Exhausted))
    } else {
        let (after, outcome) = run_item(&items@[from], state, answers, (fuel - 1) as nat);
        match outcome {
            Ok(Completion::Normal(_)) => run_items(items, from + 1, after, answers, fuel),
            _ => (after, outcome),
        }
    }
}

/// The outcome of one item of a block. The declarations that are known in the whole block
/// do nothing when their turn comes; an import is the host's to carry out.
pub open spec fn run_item<'a>(
    item: &'a BlockItem,
    state: State<'a>,
    answers: Seq<HostAnswer<TValue>>,
    fuel: nat,
) -> Step<'a>
    decreases fuel, 0nat,
{
    if fuel == 0 {
        (state, Err(Interrupt::Exhausted))
    } else {
        let fuel = (fuel - 1) as nat;
        match item {
            BlockItem::Declaration(Declaration::Variable(variables)) => declare_variables(
                variables,
                0,
                state,
                answers,
                fuel,
            ),
            BlockItem::Declaration(_) => (state, done()),
            BlockItem::Statement(statement) => run(statement, state, answers, fuel),
            BlockItem::Directive(Directive::Use(directive)) => import(directive, state, answers),
        }
    }
}

/// Declares the variables from the given one on in the innermost scope, each with the value
/// of its initializer, or with null where it has none. A name that the scope holds already
/// is a conflict.
pub open spec fn declare_variables<'a>(
    variables: &'a Vec<Variable>,
    from: int,
    state: State<'a>,
    answers: Seq<HostAnswer<TValue>>,
    fuel: nat,
) -> Step<'a>
    decreases fuel, variables@.len() - from,
{
    if from < 0 || from >= variables@.len() {
        (state, done())
    } else if fuel == 0 {
        (state, Err(Interrupt::Exhausted))
    } else {
        let variable = &variables@[from];
        let (after, initial) = match &variable.expression {
            Some(expression) => evaluate(expression, state, answers, (fuel - 1) as nat),
            None => (state, value(Value::Null)),
        };
        match value_of(initial) {
            None => (after, initial),
            Some(found) => if after.binds_here(variable.identifier.text()) {
                (after, Err(Interrupt::Conflict(&variable.identifier)))
            } else {
                declare_variables(
                    variables,
                    from + 1,
                    after.bind(variable.identifier.text(), found),
                    answers,
                    fuel,
                )
            },
        }
    }
}

/// The outcome of an assignment. The target is worked out first, then the right-hand side
/// is evaluated. A compound operator combines the value that the target has with the new
/// one. The new value is stored at the target: in the variable, in a copy of the array or
/// dictionary that the variable holds, or in the instance that an object refers to.
pub open spec fn run_assignment<'a>(
    assignment: &'a Assignment,
    state: State<'a>,
    answers: Seq<HostAnswer<TValue>>,
    fuel: nat,
) -> Step<'a>
    decreases fuel, 0nat,
{
    if fuel == 0 {
        (state, Err(Interrupt::Exhausted))
    } else {
        let fuel = (fuel - 1) as nat;
        let (placed, target) = match &assignment.left_hand_side {
            LeftHandSide::Name(name) => (
                state,
                match place_of_name(&name.0, state) {
                    Ok(place) => Ok(place),
                    Err(failure) => Err(thrown(failure)),
                },
            ),
            LeftHandSide::Item(access) => item_place(access, state, answers, fuel),
            LeftHandSide::Member(access) => member_place(access, state, answers, fuel),
        };
        match target {
            Err(stopped) => (placed, stopped),
            Ok((root, steps)) => {
                let (after, result) = evaluate(&assignment.expression, placed, answers, fuel);
                match value_of(result) {
                    None => (after, result),
                    Some(given) => store(
                        root,
                        steps,
                        combining(assignment.operation),
                        given,
                        after,
                        answers,
                    ),
                }
            },
        }
    }
}

/// Stores a value at a place, combined with what is there where an operator is given.
pub open spec fn store<'a>(
    root: Root<'a, Value>,
    steps: Seq<Selector<'a, Value>>,
    operator: Option<BinaryOperator>,
    given: Value,
    state: State<'a>,
    answers: Seq<HostAnswer<TValue>>,
) -> Step<'a> {
    match root_value(root, state) {
        None => (state, thrown(Failure::UndefinedReference)),
        Some(start) => {
            let (after, combined) = match operator {
                None => (state, value(given)),
                Some(operator) => match read_path(start, steps, 0, state) {
                    Err(failure) => (state, thrown(failure)),
                    Ok(current) => operate(current, given, operator, state, answers),
                },
            };
            match value_of(combined) {
                None => (after, combined),
                Some(stored) => match write_path(start, steps, 0, stored, after) {
                    Err(failure) => (after, thrown(failure)),
                    Ok((changed, heap)) => {
                        let written = State { heap, ..after };
                        (
                            match root {
                                Root::Variable(name) => written.assign(name.text(), changed),
                                Root::Shared { depth, class, member } => written.assign_at(
                                    depth as int,
                                    shared_key(class.text(), member.text()),
                                    changed,
                                ),
                                Root::Value(_) => written,
                            },
                            done(),
                        )
                    },
                },
            }
        },
    }
}

/// The state in which one round of a `for` loop runs: a new scope, with the item bound to
/// the loop variable where the loop declares one, or stored in the variable that it names.
pub open spec fn round_state<'a>(for_loop: &'a ForLoop, item: Value, state: State<'a>) -> Result<
    State<'a>,
    Failure,
> {
    let inner = state.enter();
    match &for_loop.loop_var {
        None => Ok(inner),
        Some(ForLoopVariable::Identifier(identifier)) => Ok(inner.bind(identifier.text(), item)),
        Some(ForLoopVariable::Name(name)) => if name.0@.len() != 1 {
            Err(Failure::TypeMismatch)
        } else if inner.variable(name.0@[0].text()) is None {
            Err(Failure::UndefinedReference)
        } else {
            Ok(inner.assign(name.0@[0].text(), item))
        },
    }
}

/// The outcome of a `for` loop over the items from the given one on. Each round has a scope
/// of its own. `Break` ends the loop and `Continue` the round; both stay inside the loop.
pub open spec fn run_for<'a>(
    for_loop: &'a ForLoop,
    items: Seq<Value>,
    from: int,
    state: State<'a>,
    answers: Seq<HostAnswer<TValue>>,
    fuel: nat,
) -> Step<'a>
    decreases fuel, items.len() - from,
{
    if from < 0 || from >= items.len() {
        (state, done())
    } else if fuel == 0 {
        (state, Err(Interrupt::Exhausted))
    } else {
        match round_state(for_loop, items[from], state) {
            Err(failure) => (state, thrown(failure)),
            Ok(inner) => {
                let (after, outcome) = run(
                    &*for_loop.do_for_each,
                    inner,
                    answers,
                    (fuel - 1) as nat,
                );
                match outcome {
                    Ok(Completion::Break) => (after.leave(), done()),
                    Ok(Completion::Normal(_)) | Ok(Completion::Continue) => run_for(
                        for_loop,
                        items,
                        from + 1,
                        after.leave(),
                        answers,
                        fuel,
                    ),
                    _ => (after.leave(), outcome),
                }
            },
        }
    }
}

/// The outcome of a `while` loop: the guard is checked before every round.
pub open spec fn run_while<'a>(
    while_loop: &'a WhileLoop,
    state: State<'a>,
    answers: Seq<HostAnswer<TValue>>,
    fuel: nat,
) -> Step<'a>
    decreases fuel, 0nat,
{
    if fuel == 0 {
        (state, Err(Interrupt::Exhausted))
    } else {
        let fuel = (fuel - 1) as nat;
        let (checked, guard) = evaluate(&while_loop.expression, state, answers, fuel);
        match value_of(guard) {
            None => (checked, guard),
            Some(Value::Boolean(false)) => (checked, done()),
            Some(Value::Boolean(true)) => {
                let (after, outcome) = run(&*while_loop.do_while, checked, answers, fuel);
                match outcome {
                    Ok(Completion::Break) => (after, done()),
                    Ok(Completion::Normal(_)) | Ok(Completion::Continue) => run_while(
                        while_loop,
                        after,
                        answers,
                        fuel,
                    ),
                    _ => (after, outcome),
                }
            },
            Some(_) => (checked, thrown(Failure::TypeMismatch)),
        }
    }
}

/// The outcome of a `do` loop: the body runs once before the guard is first checked.
pub open spec fn run_do_while<'a>(
    while_loop: &'a WhileLoop,
    state: State<'a>,
    answers: Seq<HostAnswer<TValue>>,
    fuel: nat,
) -> Step<'a>
    decreases fuel, 0nat,
{
    if fuel == 0 {
        (state, Err(Interrupt::Exhausted))
    } else {
        let fuel = (fuel - 1) as nat;
        let (after, outcome) = run(&*while_loop.do_while, state, answers, fuel);
        match outcome {
            Ok(Completion::Break) => (after, done()),
            Ok(Completion::Normal(_)) | Ok(Completion::Continue) => {
                let (checked, guard) = evaluate(&while_loop.expression, after, answers, fuel);
                match value_of(guard) {
                    None => (checked, guard),
                    Some(Value::Boolean(false)) => (checked, done()),
                    Some(Value::Boolean(true)) => run_do_while(while_loop, checked, answers, fuel),
                    Some(_) => (checked, thrown(Failure::TypeMismatch)),
                }
            },
            _ => (after, outcome),
        }
    }
}

} // verus!

verus! {

/// How the interpretation of a whole program ended.
#[derive(Debug)]
pub enum Ending<'a, V> {
    /// The program ran to its end. The value is the one it returned, or null.
    Finished(V),
    /// The program threw a value that none of its handlers caught.
    Uncaught(V),
    /// The interpretation ended before the program did.
    Stopped(Interrupt<'a, V>),
}

impl<'a> View for Ending<'a, TValue> {
    type V = Ending<'a, Value>;

    open spec fn view(&self) -> Ending<'a, Value> {
        match self {
            Ending::Finished(result) => Ending::Finished(result@),
            Ending::Uncaught(thrown) => Ending::Uncaught(thrown@),
            Ending::Stopped(interrupt) => Ending::Stopped(interrupt@),
        }
    }
}

/// What the way its outermost block ended means for a program.
pub open spec fn ending<'a>(flow: Flow<'a, Value>) -> Ending<'a, Value> {
    match flow {
        Ok(Completion::Return(Some(result))) => Ending::Finished(result),
        Ok(Completion::Return(None)) => Ending::Finished(Value::Null),
        Ok(Completion::Normal(_)) => Ending::Finished(Value::Null),
        Ok(Completion::Throw(thrown)) => Ending::Uncaught(thrown),
        Ok(Completion::Break) => Ending::Stopped(Interrupt::OutsideLoop),
        Ok(Completion::Continue) => Ending::Stopped(Interrupt::OutsideLoop),
        Err(interrupt) => Ending::Stopped(interrupt),
    }
}

/// What a program prints and how it ends, when it starts with nothing declared. `builtins`
/// holds the names of the functions that the host offers.
pub open spec fn execute<'a>(
    program: &'a Block,
    builtins: Seq<Seq<char>>,
    answers: Seq<HostAnswer<TValue>>,
    fuel: nat,
) -> (Seq<Value>, Ending<'a, Value>) {
    let (after, flow) = run_block(
        program,
        State { builtins, ..State::initial() },
        answers,
        fuel,
    );
    (after.output, ending(flow))
}

} // verus!
