//! What a class declares, and who may use it.
//!
//! The members of a class stand in three lists: open to all, open to the class and its
//! descendants, open to the class alone. An instance has the fields of its class and of all
//! the bases of that class; a member is looked for in the class first and then in its bases,
//! the nearest first.

use vstd::prelude::*;
use crate::ast::{Class, ClassItem, Constructor, Declaration, Function, Identifier, Variable};
use crate::engine::{field_frame, find_name, lemma_found, ClassRef};
use crate::scope::{binds, DeclStackItem, Frame};
use crate::value::{TValue, Value};

verus! {

/// To whom a member of a class is open.
#[derive(Debug, Clone, Copy, PartialEq, Eq)]
pub enum Visibility {
    Public,
    Protected,
    Private,
}

/// The position of the first variable of the given name.
pub open spec fn variable_index(variables: Seq<Variable>, name: Seq<char>, from: int) -> Option<int>
    decreases variables.len() - from,
{
    if from < 0 || from >= variables.len() {
        None
    } else if variables[from].identifier.text() == name {
        Some(from)
    } else {
        variable_index(variables, name, from + 1)
    }
}

/// Whether one of the items, from the given one on, declares a field of the given name.
pub open spec fn declares_field(items: Seq<ClassItem>, name: Seq<char>, from: int) -> bool
    decreases items.len() - from,
{
    if from < 0 || from >= items.len() {
        false
    } else {
        match items[from] {
            ClassItem::Declaration(Declaration::Variable(variables)) => variable_index(
                variables@,
                name,
                0,
            ) is Some || declares_field(items, name, from + 1),
            _ => declares_field(items, name, from + 1),
        }
    }
}

/// The first method of the given name among the items, from the given one on.
pub open spec fn method_among<'a>(items: &'a Vec<ClassItem>, name: Seq<char>, from: int) -> Option<
    &'a Function,
>
    decreases items@.len() - from,
{
    if from < 0 || from >= items@.len() {
        None
    } else {
        match &items@[from] {
            ClassItem::Declaration(Declaration::Function(function)) => if function.identifier.text()
                == name {
                Some(function)
            } else {
                method_among(items, name, from + 1)
            },
            _ => method_among(items, name, from + 1),
        }
    }
}

/// The first constructor among the items, from the given one on.
pub open spec fn constructor_among<'a>(items: &'a Vec<ClassItem>, from: int) -> Option<
    &'a Constructor,
>
    decreases items@.len() - from,
{
    if from < 0 || from >= items@.len() {
        None
    } else {
        match &items@[from] {
            ClassItem::Constructor(constructor) => Some(constructor),
            _ => constructor_among(items, from + 1),
        }
    }
}

/// To whom the field of the given name is open, where the class declares one.
pub open spec fn class_field(class: &Class, name: Seq<char>) -> Option<Visibility> {
    if declares_field(class.public_items@, name, 0) {
        Some(Visibility::Public)
    } else if declares_field(class.protected_items@, name, 0) {
        Some(Visibility::Protected)
    } else if declares_field(class.private_items@, name, 0) {
        Some(Visibility::Private)
    } else {
        None
    }
}

/// The method of the given name that the class declares, and to whom it is open.
pub open spec fn class_method<'a>(class: &'a Class, name: Seq<char>) -> Option<
    (Visibility, &'a Function),
> {
    match method_among(&class.public_items, name, 0) {
        Some(function) => Some((Visibility::Public, function)),
        None => match method_among(&class.protected_items, name, 0) {
            Some(function) => Some((Visibility::Protected, function)),
            None => match method_among(&class.private_items, name, 0) {
                Some(function) => Some((Visibility::Private, function)),
                None => None,
            },
        },
    }
}

/// The constructor that the class declares, and to whom it is open.
pub open spec fn class_constructor<'a>(class: &'a Class) -> Option<(Visibility, &'a Constructor)> {
    match constructor_among(&class.public_items, 0) {
        Some(constructor) => Some((Visibility::Public, constructor)),
        None => match constructor_among(&class.protected_items, 0) {
            Some(constructor) => Some((Visibility::Protected, constructor)),
            None => match constructor_among(&class.private_items, 0) {
                Some(constructor) => Some((Visibility::Private, constructor)),
                None => None,
            },
        },
    }
}

/// What an item of a class declares for all instances together, where it declares a
/// function, a class or a namespace that way.
pub open spec fn shared<'a>(item: &'a ClassItem) -> Option<(&'a Identifier, DeclStackItem<'a>)> {
    match item {
        ClassItem::StaticDeclaration(Declaration::Function(function)) => Some(
            (&function.identifier, DeclStackItem::Function(function)),
        ),
        ClassItem::StaticDeclaration(Declaration::Class(class)) => Some(
            (&class.identifier, DeclStackItem::Class(class)),
        ),
        ClassItem::StaticDeclaration(Declaration::Namespace(namespace)) => Some(
            (&namespace.identifier, DeclStackItem::Namespace(namespace)),
        ),
        _ => None,
    }
}

/// The first declaration of the given name that the items make for all instances together,
/// from the given item on.
pub open spec fn shared_among<'a>(items: &'a Vec<ClassItem>, name: Seq<char>, from: int) -> Option<
    DeclStackItem<'a>,
>
    decreases items@.len() - from,
{
    if from < 0 || from >= items@.len() {
        None
    } else {
        match shared(&items@[from]) {
            Some((identifier, item)) => if identifier.text() == name {
                Some(item)
            } else {
                shared_among(items, name, from + 1)
            },
            None => shared_among(items, name, from + 1),
        }
    }
}

/// The declaration of the given name that the class makes for all instances together, and to
/// whom it is open.
pub open spec fn class_shared<'a>(class: &'a Class, name: Seq<char>) -> Option<
    (Visibility, DeclStackItem<'a>),
> {
    match shared_among(&class.public_items, name, 0) {
        Some(item) => Some((Visibility::Public, item)),
        None => match shared_among(&class.protected_items, name, 0) {
            Some(item) => Some((Visibility::Protected, item)),
            None => match shared_among(&class.private_items, name, 0) {
                Some(item) => Some((Visibility::Private, item)),
                None => None,
            },
        },
    }
}

/// Whether one of the items, from the given one on, declares a variable of the given name
/// for all instances together.
pub open spec fn declares_shared_variable(items: Seq<ClassItem>, name: Seq<char>, from: int) -> bool
    decreases items.len() - from,
{
    if from < 0 || from >= items.len() {
        false
    } else {
        match items[from] {
            ClassItem::StaticDeclaration(Declaration::Variable(variables)) => variable_index(
                variables@,
                name,
                0,
            ) is Some || declares_shared_variable(items, name, from + 1),
            _ => declares_shared_variable(items, name, from + 1),
        }
    }
}

/// To whom the variable of the given name is open that the class declares for all instances
/// together, where it declares one.
pub open spec fn class_shared_variable(class: &Class, name: Seq<char>) -> Option<Visibility> {
    if declares_shared_variable(class.public_items@, name, 0) {
        Some(Visibility::Public)
    } else if declares_shared_variable(class.protected_items@, name, 0) {
        Some(Visibility::Protected)
    } else if declares_shared_variable(class.private_items@, name, 0) {
        Some(Visibility::Private)
    } else {
        None
    }
}

/// The nearest class of the context, from the given one on, that declares a variable of the
/// given name for all instances together which is open to the code of the context.
pub open spec fn context_shared<'a>(context: Seq<ClassRef<'a>>, name: Seq<char>, from: int) -> Option<
    int,
>
    decreases context.len() - from,
{
    if from < 0 || from >= context.len() {
        None
    } else {
        match class_shared_variable(context[from].class, name) {
            Some(visibility) => if allowed(visibility, context[from], context) {
                Some(from)
            } else {
                context_shared(context, name, from + 1)
            },
            None => context_shared(context, name, from + 1),
        }
    }
}

/// The nearest class of a lineage, from the given one on, that declares a field of the given
/// name: its position, and to whom the field is open.
pub open spec fn lineage_field<'a>(lineage: Seq<ClassRef<'a>>, name: Seq<char>, from: int) -> Option<
    (int, Visibility),
>
    decreases lineage.len() - from,
{
    if from < 0 || from >= lineage.len() {
        None
    } else {
        match class_field(lineage[from].class, name) {
            Some(visibility) => Some((from, visibility)),
            None => lineage_field(lineage, name, from + 1),
        }
    }
}

/// The nearest class of a lineage, from the given one on, that declares a method of the
/// given name: its position, to whom the method is open, and the method.
pub open spec fn lineage_method<'a>(lineage: Seq<ClassRef<'a>>, name: Seq<char>, from: int) -> Option<
    (int, Visibility, &'a Function),
>
    decreases lineage.len() - from,
{
    if from < 0 || from >= lineage.len() {
        None
    } else {
        match class_method(lineage[from].class, name) {
            Some((visibility, function)) => Some((from, visibility, function)),
            None => lineage_method(lineage, name, from + 1),
        }
    }
}

/// Whether two classes are the same: they have the same name and are declared at the same
/// depth.
pub open spec fn same_class<'a>(one: ClassRef<'a>, other: ClassRef<'a>) -> bool {
    one.class.identifier.text() == other.class.identifier.text() && one.depth == other.depth
}

/// Whether the class is among those of the context, from the given one on: whether the code
/// that is running belongs to the class or to one of its descendants.
pub open spec fn descends<'a>(context: Seq<ClassRef<'a>>, owner: ClassRef<'a>, from: int) -> bool
    decreases context.len() - from,
{
    if from < 0 || from >= context.len() {
        false
    } else {
        same_class(context[from], owner) || descends(context, owner, from + 1)
    }
}

/// Whether a member of the class `owner` is open to the code that is running. `context` is
/// the class to which that code belongs, followed by its bases; it is empty for code
/// outside of any class.
pub open spec fn allowed<'a>(
    visibility: Visibility,
    owner: ClassRef<'a>,
    context: Seq<ClassRef<'a>>,
) -> bool {
    match visibility {
        Visibility::Public => true,
        Visibility::Protected => descends(context, owner, 0),
        Visibility::Private => context.len() > 0 && same_class(context[0], owner),
    }
}

/// The fields with one more, set to null, for each of the variables, from the given one on,
/// whose name is not among them yet.
pub open spec fn with_variables(fields: Frame<Value>, variables: Seq<Variable>, from: int) -> Frame<
    Value,
>
    decreases variables.len() - from,
{
    if from < 0 || from >= variables.len() {
        fields
    } else if binds(fields, variables[from].identifier.text()) {
        with_variables(fields, variables, from + 1)
    } else {
        with_variables(
            fields.push((variables[from].identifier.text(), Value::Null)),
            variables,
            from + 1,
        )
    }
}

/// The fields with those that the items declare, from the given item on.
pub open spec fn with_items(fields: Frame<Value>, items: Seq<ClassItem>, from: int) -> Frame<Value>
    decreases items.len() - from,
{
    if from < 0 || from >= items.len() {
        fields
    } else {
        match items[from] {
            ClassItem::Declaration(Declaration::Variable(variables)) => with_items(
                with_variables(fields, variables@, 0),
                items,
                from + 1,
            ),
            _ => with_items(fields, items, from + 1),
        }
    }
}

/// The fields with those that the class declares.
pub open spec fn with_class(fields: Frame<Value>, class: &Class) -> Frame<Value> {
    with_items(
        with_items(with_items(fields, class.public_items@, 0), class.protected_items@, 0),
        class.private_items@,
        0,
    )
}

/// The fields with those of the first `count` classes of the lineage, the furthest first.
pub open spec fn with_lineage<'a>(fields: Frame<Value>, lineage: Seq<ClassRef<'a>>, count: int) -> Frame<
    Value,
>
    decreases count,
{
    if count <= 0 || count > lineage.len() {
        fields
    } else {
        with_lineage(with_class(fields, lineage[count - 1].class), lineage, count - 1)
    }
}

} // verus!

verus! {

/// The position of the first variable of the given name.
pub fn find_variable(variables: &Vec<Variable>, name: &Identifier) -> (r: Option<usize>)
    ensures
        match r {
            Some(at) => variable_index(variables@, name.text(), 0) == Some(at as int) && at
                < variables@.len(),
            None => variable_index(variables@, name.text(), 0) is None,
        },
{
    let mut i: usize = 0;
    while i < variables.len()
        invariant
            i <= variables@.len(),
            variable_index(variables@, name.text(), 0) == variable_index(
                variables@,
                name.text(),
                i as int,
            ),
        decreases variables@.len() - i,
    {
        if variables[i].identifier.same(name) {
            return Some(i);
        }
        i += 1;
    }
    None
}

/// Whether one of the items declares a field of the given name.
pub fn has_field(items: &Vec<ClassItem>, name: &Identifier) -> (r: bool)
    ensures
        r == declares_field(items@, name.text(), 0),
{
    let mut i: usize = 0;
    while i < items.len()
        invariant
            i <= items@.len(),
            declares_field(items@, name.text(), 0) == declares_field(
                items@,
                name.text(),
                i as int,
            ),
        decreases items@.len() - i,
    {
        if let ClassItem::Declaration(Declaration::Variable(variables)) = &items[i] {
            if find_variable(variables, name).is_some() {
                return true;
            }
        }
        i += 1;
    }
    false
}

/// The first method of the given name among the items.
pub fn find_method<'a>(items: &'a Vec<ClassItem>, name: &Identifier) -> (r: Option<&'a Function>)
    ensures
        r == method_among(items, name.text(), 0),
{
    let mut i: usize = 0;
    while i < items.len()
        invariant
            i <= items@.len(),
            method_among(items, name.text(), 0) == method_among(items, name.text(), i as int),
        decreases items@.len() - i,
    {
        if let ClassItem::Declaration(Declaration::Function(function)) = &items[i] {
            if function.identifier.same(name) {
                return Some(function);
            }
        }
        i += 1;
    }
    None
}

/// The first constructor among the items.
pub fn find_constructor<'a>(items: &'a Vec<ClassItem>) -> (r: Option<&'a Constructor>)
    ensures
        r == constructor_among(items, 0),
{
    let mut i: usize = 0;
    while i < items.len()
        invariant
            i <= items@.len(),
            constructor_among(items, 0) == constructor_among(items, i as int),
        decreases items@.len() - i,
    {
        if let ClassItem::Constructor(constructor) = &items[i] {
            return Some(constructor);
        }
        i += 1;
    }
    None
}

impl Class {
    /// To whom the field of the given name is open, where the class declares one.
    pub fn field(&self, name: &Identifier) -> (r: Option<Visibility>)
        ensures
            r == class_field(self, name.text()),
    {
        if has_field(&self.public_items, name) {
            Some(Visibility::Public)
        } else if has_field(&self.protected_items, name) {
            Some(Visibility::Protected)
        } else if has_field(&self.private_items, name) {
            Some(Visibility::Private)
        } else {
            None
        }
    }

    /// The method of the given name that the class declares, and to whom it is open.
    pub fn method<'a>(&'a self, name: &Identifier) -> (r: Option<(Visibility, &'a Function)>)
        ensures
            r == class_method(self, name.text()),
    {
        match find_method(&self.public_items, name) {
            Some(function) => Some((Visibility::Public, function)),
            None => match find_method(&self.protected_items, name) {
                Some(function) => Some((Visibility::Protected, function)),
                None => match find_method(&self.private_items, name) {
                    Some(function) => Some((Visibility::Private, function)),
                    None => None,
                },
            },
        }
    }

    /// The declaration of the given name that the class makes for all instances together,
    /// and to whom it is open.
    pub fn shared<'a>(&'a self, name: &Identifier) -> (r: Option<(Visibility, DeclStackItem<'a>)>)
        ensures
            r == class_shared(self, name.text()),
    {
        match find_shared(&self.public_items, name) {
            Some(item) => Some((Visibility::Public, item)),
            None => match find_shared(&self.protected_items, name) {
                Some(item) => Some((Visibility::Protected, item)),
                None => match find_shared(&self.private_items, name) {
                    Some(item) => Some((Visibility::Private, item)),
                    None => None,
                },
            },
        }
    }

    /// To whom the variable of the given name is open that the class declares for all
    /// instances together, where it declares one.
    pub fn shared_variable(&self, name: &Identifier) -> (r: Option<Visibility>)
        ensures
            r == class_shared_variable(self, name.text()),
    {
        if has_shared_variable(&self.public_items, name) {
            Some(Visibility::Public)
        } else if has_shared_variable(&self.protected_items, name) {
            Some(Visibility::Protected)
        } else if has_shared_variable(&self.private_items, name) {
            Some(Visibility::Private)
        } else {
            None
        }
    }

    /// The constructor that the class declares, and to whom it is open.
    pub fn constructor<'a>(&'a self) -> (r: Option<(Visibility, &'a Constructor)>)
        ensures
            r == class_constructor(self),
    {
        match find_constructor(&self.public_items) {
            Some(constructor) => Some((Visibility::Public, constructor)),
            None => match find_constructor(&self.protected_items) {
                Some(constructor) => Some((Visibility::Protected, constructor)),
                None => match find_constructor(&self.private_items) {
                    Some(constructor) => Some((Visibility::Private, constructor)),
                    None => None,
                },
            },
        }
    }
}

/// The first declaration of the given name that the items make for all instances together.
pub fn find_shared<'a>(items: &'a Vec<ClassItem>, name: &Identifier) -> (r: Option<
    DeclStackItem<'a>,
>)
    ensures
        r == shared_among(items, name.text(), 0),
{
    let mut i: usize = 0;
    while i < items.len()
        invariant
            i <= items@.len(),
            shared_among(items, name.text(), 0) == shared_among(items, name.text(), i as int),
        decreases items@.len() - i,
    {
        match &items[i] {
            ClassItem::StaticDeclaration(Declaration::Function(function)) => {
                if function.identifier.same(name) {
                    return Some(DeclStackItem::Function(function));
                }
            },
            ClassItem::StaticDeclaration(Declaration::Class(class)) => {
                if class.identifier.same(name) {
                    return Some(DeclStackItem::Class(class));
                }
            },
            ClassItem::StaticDeclaration(Declaration::Namespace(namespace)) => {
                if namespace.identifier.same(name) {
                    return Some(DeclStackItem::Namespace(namespace));
                }
            },
            _ => {},
        }
        i += 1;
    }
    None
}

/// Whether one of the items declares a variable of the given name for all instances
/// together.
pub fn has_shared_variable(items: &Vec<ClassItem>, name: &Identifier) -> (r: bool)
    ensures
        r == declares_shared_variable(items@, name.text(), 0),
{
    let mut i: usize = 0;
    while i < items.len()
        invariant
            i <= items@.len(),
            declares_shared_variable(items@, name.text(), 0) == declares_shared_variable(
                items@,
                name.text(),
                i as int,
            ),
        decreases items@.len() - i,
    {
        if let ClassItem::StaticDeclaration(Declaration::Variable(variables)) = &items[i] {
            if find_variable(variables, name).is_some() {
                return true;
            }
        }
        i += 1;
    }
    false
}

/// The nearest class of the context that declares a variable of the given name for all
/// instances together which is open to the code of the context.
pub fn find_context_shared<'a>(context: &Vec<ClassRef<'a>>, name: &Identifier) -> (r: Option<usize>)
    ensures
        match r {
            Some(at) => context_shared(context@, name.text(), 0) == Some(at as int) && at
                < context@.len(),
            None => context_shared(context@, name.text(), 0) is None,
        },
{
    let mut i: usize = 0;
    while i < context.len()
        invariant
            i <= context@.len(),
            context_shared(context@, name.text(), 0) == context_shared(
                context@,
                name.text(),
                i as int,
            ),
        decreases context@.len() - i,
    {
        if let Some(visibility) = context[i].class.shared_variable(name) {
            if is_allowed(visibility, &context[i], context) {
                return Some(i);
            }
        }
        i += 1;
    }
    None
}

/// The nearest class of a lineage that declares a field of the given name.
pub fn find_lineage_field<'a>(lineage: &Vec<ClassRef<'a>>, name: &Identifier) -> (r: Option<
    (usize, Visibility),
>)
    ensures
        match r {
            Some((at, visibility)) => lineage_field(lineage@, name.text(), 0) == Some(
                (at as int, visibility),
            ) && at < lineage@.len(),
            None => lineage_field(lineage@, name.text(), 0) is None,
        },
{
    let mut i: usize = 0;
    while i < lineage.len()
        invariant
            i <= lineage@.len(),
            lineage_field(lineage@, name.text(), 0) == lineage_field(
                lineage@,
                name.text(),
                i as int,
            ),
        decreases lineage@.len() - i,
    {
        if let Some(visibility) = lineage[i].class.field(name) {
            return Some((i, visibility));
        }
        i += 1;
    }
    None
}

/// The nearest class of a lineage that declares a method of the given name.
pub fn find_lineage_method<'a>(lineage: &Vec<ClassRef<'a>>, name: &Identifier) -> (r: Option<
    (usize, Visibility, &'a Function),
>)
    ensures
        match r {
            Some((at, visibility, function)) => lineage_method(lineage@, name.text(), 0) == Some(
                (at as int, visibility, function),
            ) && at < lineage@.len(),
            None => lineage_method(lineage@, name.text(), 0) is None,
        },
{
    let mut i: usize = 0;
    while i < lineage.len()
        invariant
            i <= lineage@.len(),
            lineage_method(lineage@, name.text(), 0) == lineage_method(
                lineage@,
                name.text(),
                i as int,
            ),
        decreases lineage@.len() - i,
    {
        if let Some((visibility, function)) = lineage[i].class.method(name) {
            return Some((i, visibility, function));
        }
        i += 1;
    }
    None
}

/// Whether two classes are the same.
pub fn is_same_class<'a>(one: &ClassRef<'a>, other: &ClassRef<'a>) -> (r: bool)
    ensures
        r == same_class(*one, *other),
{
    one.class.identifier.same(&other.class.identifier) && one.depth == other.depth
}

/// Whether a member of the class `owner` is open to the code that is running.
#[verifier::loop_isolation(false)]
pub fn is_allowed<'a>(visibility: Visibility, owner: &ClassRef<'a>, context: &Vec<ClassRef<'a>>) -> (r:
    bool)
    ensures
        r == allowed(visibility, *owner, context@),
{
    match visibility {
        Visibility::Public => true,
        Visibility::Protected => {
            let mut i: usize = 0;
            while i < context.len()
                invariant
                    i <= context@.len(),
                    descends(context@, *owner, 0) == descends(context@, *owner, i as int),
                decreases context@.len() - i,
            {
                if is_same_class(&context[i], owner) {
                    return true;
                }
                i += 1;
            }
            false
        },
        Visibility::Private => context.len() > 0 && is_same_class(&context[0], owner),
    }
}

/// Adds the fields that the items declare, each set to null, unless it is there already.
pub fn add_fields<'a>(fields: &mut Vec<(&'a Identifier, TValue)>, items: &'a Vec<ClassItem>)
    ensures
        field_frame(final(fields)@) == with_items(field_frame(old(fields)@), items@, 0),
{
    let mut i: usize = 0;
    while i < items.len()
        invariant
            i <= items@.len(),
            with_items(field_frame(old(fields)@), items@, 0) == with_items(
                field_frame(fields@),
                items@,
                i as int,
            ),
        decreases items@.len() - i,
    {
        if let ClassItem::Declaration(Declaration::Variable(variables)) = &items[i] {
            let ghost start = field_frame(fields@);
            let mut j: usize = 0;
            while j < variables.len()
                invariant
                    j <= variables@.len(),
                    with_variables(start, variables@, 0) == with_variables(
                        field_frame(fields@),
                        variables@,
                        j as int,
                    ),
                decreases variables@.len() - j,
            {
                let found = find_name(fields, &variables[j].identifier);
                proof {
                    lemma_found(
                        field_frame(fields@),
                        variables@[j as int].identifier.text(),
                        match found {
                            Some(at) => Some(at as int),
                            None => None,
                        },
                    );
                }
                if found.is_none() {
                    let ghost before = field_frame(fields@);
                    fields.push((&variables[j].identifier, TValue::Null));
                    assert(field_frame(fields@) =~= before.push(
                        (variables@[j as int].identifier.text(), Value::Null),
                    ));
                }
                j += 1;
            }
        }
        i += 1;
    }
}

/// The fields of a new instance of the class with the given lineage: those of all its
/// classes, the furthest base first, each set to null.
pub fn new_fields<'a>(lineage: &Vec<ClassRef<'a>>) -> (fields: Vec<(&'a Identifier, TValue)>)
    ensures
        field_frame(fields@) == with_lineage(Seq::empty(), lineage@, lineage@.len() as int),
{
    let mut fields: Vec<(&'a Identifier, TValue)> = Vec::new();
    assert(field_frame(fields@) =~= Seq::empty());
    let mut count: usize = lineage.len();
    while count > 0
        invariant
            count <= lineage@.len(),
            with_lineage(Seq::empty(), lineage@, lineage@.len() as int) == with_lineage(
                field_frame(fields@),
                lineage@,
                count as int,
            ),
        decreases count,
    {
        let class: &'a Class = lineage[count - 1].class;
        add_fields(&mut fields, &class.public_items);
        add_fields(&mut fields, &class.protected_items);
        add_fields(&mut fields, &class.private_items);
        count -= 1;
    }
    fields
}

} // verus!
