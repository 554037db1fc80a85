//! Scopes and stacks of scopes.
//!
//! A scope is a sequence of entries, each a name with what it is bound to; a stack of scopes
//! has the outermost scope first. A name is looked up from the innermost scope outwards, so
//! that an inner binding hides an outer one.

use vstd::prelude::*;
use crate::ast::{Class, Function, Identifier, Namespace};
use crate::value::{entry_index, lemma_entry_index, TValue};

verus! {

/// What a declaration scope holds for a name: the declaration itself, which lives in the
/// syntax tree.
#[derive(Debug, Clone, Copy)]
pub enum DeclStackItem<'a> {
    Function(&'a Function),
    Class(&'a Class),
    Namespace(&'a Namespace),
}

/// One scope of declarations, as the engine holds it.
pub type DeclarationScope<'a> = Vec<(&'a Identifier, DeclStackItem<'a>)>;

/// The stack of declaration scopes, the outermost first.
pub type DeclarationStack<'a> = Vec<DeclarationScope<'a>>;

/// One scope of variables, as the engine holds it.
pub type VariableScope = Vec<(Identifier, TValue)>;

/// The stack of variable scopes, the outermost first.
pub type VariableStack = Vec<VariableScope>;

/// The model of a scope.
pub type Frame<T> = Seq<(Seq<char>, T)>;

/// Whether a scope binds the name.
pub open spec fn binds<T>(frame: Frame<T>, name: Seq<char>) -> bool {
    entry_index(frame, name) is Some
}

/// What a scope binds the name to.
pub open spec fn bound<T>(frame: Frame<T>, name: Seq<char>) -> T
    recommends
        binds(frame, name),
{
    frame[entry_index(frame, name).unwrap()].1
}

/// Whether no name is bound twice in a scope.
pub open spec fn distinct<T>(frame: Frame<T>) -> bool {
    forall|i: int, j: int| 0 <= i < j < frame.len() ==> frame[i].0 != frame[j].0
}

/// The scope with the binding of the name replaced.
pub open spec fn rebound<T>(frame: Frame<T>, name: Seq<char>, item: T) -> Frame<T>
    recommends
        binds(frame, name),
{
    frame.update(entry_index(frame, name).unwrap(), (name, item))
}

/// The depth of the innermost scope that binds the name.
pub open spec fn resolve<T>(stack: Seq<Frame<T>>, name: Seq<char>) -> Option<int>
    decreases stack.len(),
{
    if stack.len() == 0 {
        None
    } else if binds(stack.last(), name) {
        Some(stack.len() - 1)
    } else {
        resolve(stack.drop_last(), name)
    }
}

/// The stack with one more binding in its innermost scope.
pub open spec fn declared<T>(stack: Seq<Frame<T>>, name: Seq<char>, item: T) -> Seq<Frame<T>>
    recommends
        stack.len() > 0,
{
    stack.update(stack.len() - 1, stack.last().push((name, item)))
}

/// The stack with the innermost binding of the name replaced.
pub open spec fn stored<T>(stack: Seq<Frame<T>>, name: Seq<char>, item: T) -> Seq<Frame<T>>
    recommends
        resolve(stack, name) is Some,
{
    let depth = resolve(stack, name).unwrap();
    stack.update(depth, rebound(stack[depth], name, item))
}

/// What `resolve` finds: a scope of the stack that binds the name, with no scope inside it
/// that does.
pub proof fn lemma_resolve<T>(stack: Seq<Frame<T>>, name: Seq<char>)
    ensures
        match resolve(stack, name) {
            Some(depth) => 0 <= depth < stack.len() && binds(stack[depth], name) && forall|d: int|
                depth < d < stack.len() ==> !binds(#[trigger] stack[d], name),
            None => forall|d: int| 0 <= d < stack.len() ==> !binds(#[trigger] stack[d], name),
        },
    decreases stack.len(),
{
    if stack.len() > 0 && !binds(stack.last(), name) {
        let rest = stack.drop_last();
        lemma_resolve(rest, name);
        assert forall|d: int| 0 <= d < rest.len() implies rest[d] == stack[d] by {}
        match resolve(rest, name) {
            Some(depth) => {
                assert forall|d: int| depth < d < stack.len() implies !binds(
                    #[trigger] stack[d],
                    name,
                ) by {
                    if d < rest.len() {
                        assert(rest[d] == stack[d]);
                    }
                }
            },
            None => {
                assert forall|d: int| 0 <= d < stack.len() implies !binds(
                    #[trigger] stack[d],
                    name,
                ) by {
                    if d < rest.len() {
                        assert(rest[d] == stack[d]);
                    }
                }
            },
        }
    }
}

/// A scope of the stack that binds the name, with no scope inside it that does, is what
/// `resolve` finds.
pub proof fn lemma_resolve_is<T>(stack: Seq<Frame<T>>, name: Seq<char>, depth: int)
    requires
        0 <= depth < stack.len(),
        binds(stack[depth], name),
        forall|d: int| depth < d < stack.len() ==> !binds(#[trigger] stack[d], name),
    ensures
        resolve(stack, name) == Some(depth),
{
    lemma_resolve(stack, name);
}

/// No scope of the stack binds the name: `resolve` finds nothing.
pub proof fn lemma_resolve_none<T>(stack: Seq<Frame<T>>, name: Seq<char>)
    requires
        forall|d: int| 0 <= d < stack.len() ==> !binds(#[trigger] stack[d], name),
    ensures
        resolve(stack, name) is None,
{
    lemma_resolve(stack, name);
}

/// A name that a scope does not bind can be added to it: the scope then binds it to the new
/// item, binds every other name as before, and stays free of doubles.
pub proof fn lemma_push_binding<T>(frame: Frame<T>, name: Seq<char>, item: T, other: Seq<char>)
    ensures
        !binds(frame, name) ==> bound(frame.push((name, item)), name) == item,
        binds(frame.push((name, item)), name),
        other != name ==> binds(frame.push((name, item)), other) == binds(frame, other),
        other != name && binds(frame, other) ==> bound(frame.push((name, item)), other) == bound(
            frame,
            other,
        ),
        distinct(frame) && !binds(frame, name) ==> distinct(frame.push((name, item))),
{
    let longer = frame.push((name, item));
    lemma_entry_index(frame, name);
    lemma_entry_index(longer, name);
    lemma_entry_index(frame, other);
    lemma_entry_index(longer, other);
    assert(longer[frame.len() as int].0 == name);
    assert forall|i: int| 0 <= i < frame.len() implies longer[i] == frame[i] by {}
    if other != name {
        match entry_index(frame, other) {
            Some(i) => {
                assert(longer[i].0 == other);
            },
            None => {
                match entry_index(longer, other) {
                    Some(j) => {
                        assert(j < frame.len());
                        assert(frame[j].0 == other);
                    },
                    None => {},
                }
            },
        }
    }
    if distinct(frame) && !binds(frame, name) {
        assert forall|i: int, j: int| 0 <= i < j < longer.len() implies longer[i].0
            != longer[j].0 by {
            if j == frame.len() {
                assert(frame[i].0 != name);
            }
        }
    }
}

/// Replacing the binding of a name leaves the names of the scope as they were.
pub proof fn lemma_rebound<T>(frame: Frame<T>, name: Seq<char>, item: T, other: Seq<char>)
    requires
        binds(frame, name),
    ensures
        binds(rebound(frame, name, item), other) == binds(frame, other),
        bound(rebound(frame, name, item), name) == item,
        other != name && binds(frame, other) ==> bound(rebound(frame, name, item), other)
            == bound(frame, other),
        distinct(frame) ==> distinct(rebound(frame, name, item)),
        entry_index(rebound(frame, name, item), other) == entry_index(frame, other),
{
    let changed = rebound(frame, name, item);
    lemma_entry_index(frame, name);
    lemma_entry_index(frame, other);
    lemma_entry_index(changed, other);
    lemma_entry_index(changed, name);
    let at = entry_index(frame, name).unwrap();
    assert(0 <= at < frame.len());
    assert(changed.len() == frame.len());
    assert(changed[at] == (name, item));
    assert forall|i: int| 0 <= i < frame.len() implies changed[i].0 == frame[i].0 by {}
    match entry_index(changed, name) {
        Some(j) => {
            assert(frame[j].0 == name);
        },
        None => {},
    }
    match entry_index(frame, other) {
        Some(i) => {
            assert(changed[i].0 == other);
            match entry_index(changed, other) {
                Some(j) => {
                    assert(frame[j].0 == other);
                },
                None => {},
            }
        },
        None => {
            match entry_index(changed, other) {
                Some(j) => {
                    assert(frame[j].0 == other);
                },
                None => {},
            }
        },
    }
    if distinct(frame) {
        assert forall|i: int, j: int| 0 <= i < j < changed.len() implies changed[i].0
            != changed[j].0 by {
            assert(frame[i].0 != frame[j].0);
        }
    }
}

} // verus!
