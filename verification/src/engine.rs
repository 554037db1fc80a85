//! The state of an interpretation: the two stacks of scopes, what the program has printed,
//! and how many answers of the host it has used.

use vstd::prelude::*;
use crate::ast::{Class, Identifier, Namespace};
use crate::error::InterpreterError;
use crate::scope::{
    binds, bound, declared, distinct, lemma_push_binding, lemma_rebound, lemma_resolve_is,
    lemma_resolve_none, rebound, resolve, stored, DeclStackItem, DeclarationScope,
    DeclarationStack, Frame, VariableScope, VariableStack,
};
use crate::value::{entry_index, lemma_entry_index, values_view, TValue, Value};

verus! {

/// A class as the engine knows it: its declaration and the depth of the scope that declares
/// it.
#[derive(Debug, Clone, Copy)]
pub struct ClassRef<'a> {
    pub class: &'a Class,
    pub depth: usize,
}

/// An instance of a class.
#[derive(Debug)]
pub struct Instance<'a> {
    /// The class of the instance, followed by its bases, the nearest first.
    pub lineage: Vec<ClassRef<'a>>,
    /// For each class of the lineage the namespaces to which it belongs, the outermost first.
    pub chains: Vec<Vec<&'a Namespace>>,
    /// The fields of the instance with their values.
    pub fields: Vec<(&'a Identifier, TValue)>,
}

/// The model of an [`Instance`].
pub struct InstanceModel<'a> {
    pub lineage: Seq<ClassRef<'a>>,
    pub chains: Seq<Seq<&'a Namespace>>,
    pub fields: Frame<Value>,
}

/// The models of the chains of namespaces, one by one.
pub open spec fn chains_view<'a>(chains: Seq<Vec<&'a Namespace>>) -> Seq<Seq<&'a Namespace>> {
    Seq::new(chains.len(), |i: int| chains[i]@)
}

impl<'a> View for Instance<'a> {
    type V = InstanceModel<'a>;

    open spec fn view(&self) -> InstanceModel<'a> {
        InstanceModel {
            lineage: self.lineage@,
            chains: chains_view(self.chains@),
            fields: field_frame(self.fields@),
        }
    }
}

/// The models of the instances, one by one.
pub open spec fn heap_view<'a>(heap: Seq<Instance<'a>>) -> Seq<InstanceModel<'a>> {
    Seq::new(heap.len(), |i: int| heap[i]@)
}

/// The texts of the names, one by one.
pub open spec fn names_view(names: Seq<String>) -> Seq<Seq<char>> {
    Seq::new(names.len(), |i: int| names[i]@)
}

/// The model of an [`Engine`].
pub struct State<'a> {
    /// The declaration scopes, the outermost first.
    pub declarations: Seq<Frame<DeclStackItem<'a>>>,
    /// The variable scopes, the outermost first.
    pub variables: Seq<Frame<Value>>,
    /// What the program has printed, in order.
    pub output: Seq<Value>,
    /// How many answers of the host have been used.
    pub asked: nat,
    /// The instances that have been made. An object is the position of its instance here.
    pub heap: Seq<InstanceModel<'a>>,
    /// The instance on which a method or a constructor is running.
    pub receiver: Option<nat>,
    /// The class whose code is running, followed by its bases; empty outside of classes.
    pub context: Seq<ClassRef<'a>>,
    /// The names of the functions that the host has made known.
    pub builtins: Seq<Seq<char>>,
    /// The depth of the scope that declares the outermost of the namespaces in `chain`.
    pub home: nat,
    /// The namespaces to which the code that is running belongs, the outermost first.
    pub chain: Seq<&'a Namespace>,
}

impl<'a> State<'a> {
    /// The state before anything has run.
    pub open spec fn initial() -> State<'a> {
        State {
            declarations: Seq::empty(),
            variables: Seq::empty(),
            output: Seq::empty(),
            asked: 0,
            heap: Seq::empty(),
            receiver: None,
            context: Seq::empty(),
            builtins: Seq::empty(),
            home: 0,
            chain: Seq::empty(),
        }
    }

    /// Both stacks are equally deep, and no scope binds a name twice.
    pub open spec fn wf(self) -> bool {
        &&& self.declarations.len() == self.variables.len()
        &&& forall|d: int|
            0 <= d < self.declarations.len() ==> distinct(#[trigger] self.declarations[d])
        &&& forall|d: int| 0 <= d < self.variables.len() ==> distinct(#[trigger] self.variables[d])
    }

    /// How many scopes are open.
    pub open spec fn depth(self) -> nat {
        self.variables.len()
    }

    /// The state with a new, empty scope on both stacks.
    pub open spec fn enter(self) -> State<'a> {
        State {
            declarations: self.declarations.push(Seq::empty()),
            variables: self.variables.push(Seq::empty()),
            ..self
        }
    }

    /// The state without its innermost scope.
    pub open spec fn leave(self) -> State<'a> {
        State {
            declarations: self.declarations.drop_last(),
            variables: self.variables.drop_last(),
            ..self
        }
    }

    /// Whether the innermost scope declares the name.
    pub open spec fn declares_here(self, name: Seq<char>) -> bool {
        self.declarations.len() > 0 && binds(self.declarations.last(), name)
    }

    /// The state with one more declaration in its innermost scope.
    pub open spec fn register(self, name: Seq<char>, item: DeclStackItem<'a>) -> State<'a> {
        State { declarations: declared(self.declarations, name, item), ..self }
    }

    /// The innermost declaration of the name, with the depth of its scope.
    pub open spec fn declaration(self, name: Seq<char>) -> Option<(int, DeclStackItem<'a>)> {
        match resolve(self.declarations, name) {
            Some(depth) => Some((depth, bound(self.declarations[depth], name))),
            None => None,
        }
    }

    /// Whether the innermost scope holds a variable of the name.
    pub open spec fn binds_here(self, name: Seq<char>) -> bool {
        self.variables.len() > 0 && binds(self.variables.last(), name)
    }

    /// The state with one more variable in its innermost scope.
    pub open spec fn bind(self, name: Seq<char>, value: Value) -> State<'a> {
        State { variables: declared(self.variables, name, value), ..self }
    }

    /// The value of the innermost variable of the name.
    pub open spec fn variable(self, name: Seq<char>) -> Option<Value> {
        match resolve(self.variables, name) {
            Some(depth) => Some(bound(self.variables[depth], name)),
            None => None,
        }
    }

    /// The state with a new value in the innermost variable of the name.
    pub open spec fn assign(self, name: Seq<char>, value: Value) -> State<'a> {
        State { variables: stored(self.variables, name, value), ..self }
    }

    /// Opening a scope and closing it again changes nothing.
    pub proof fn lemma_enter_leave(self)
        ensures
            self.enter().leave() == self,
    {
        assert(self.enter().leave().declarations =~= self.declarations);
        assert(self.enter().leave().variables =~= self.variables);
    }

    /// The value of the variable of the given name in the scope at the given depth.
    pub open spec fn variable_at(self, depth: int, name: Seq<char>) -> Option<Value> {
        if 0 <= depth < self.variables.len() && binds(self.variables[depth], name) {
            Some(bound(self.variables[depth], name))
        } else {
            None
        }
    }

    /// The state with a new value in the variable of the given name in the scope at the
    /// given depth.
    pub open spec fn assign_at(self, depth: int, name: Seq<char>, value: Value) -> State<'a> {
        if 0 <= depth < self.variables.len() && binds(self.variables[depth], name) {
            State {
                variables: self.variables.update(
                    depth,
                    rebound(self.variables[depth], name, value),
                ),
                ..self
            }
        } else {
            self
        }
    }

    /// The state with one more printed value.
    pub open spec fn print(self, value: Value) -> State<'a> {
        State { output: self.output.push(value), ..self }
    }

    /// The state with one more answer of the host used.
    pub open spec fn answered(self) -> State<'a> {
        State { asked: self.asked + 1, ..self }
    }
}

/// The model of a declaration scope.
pub open spec fn declaration_frame<'a>(scope: Seq<(&'a Identifier, DeclStackItem<'a>)>) -> Frame<
    DeclStackItem<'a>,
> {
    Seq::new(scope.len(), |i: int| (scope[i].0.text(), scope[i].1))
}

/// The model of a variable scope.
pub open spec fn variable_frame(scope: Seq<(Identifier, TValue)>) -> Frame<Value> {
    Seq::new(scope.len(), |i: int| (scope[i].0.text(), scope[i].1@))
}

/// The model of the fields of an instance.
pub open spec fn field_frame<'a>(fields: Seq<(&'a Identifier, TValue)>) -> Frame<Value> {
    Seq::new(fields.len(), |i: int| (fields[i].0.text(), fields[i].1@))
}

/// The model of a declaration stack.
pub open spec fn declaration_frames<'a>(stack: Seq<DeclarationScope<'a>>) -> Seq<
    Frame<DeclStackItem<'a>>,
> {
    Seq::new(stack.len(), |d: int| declaration_frame(stack[d]@))
}

/// The model of a variable stack.
pub open spec fn variable_frames(stack: Seq<VariableScope>) -> Seq<Frame<Value>> {
    Seq::new(stack.len(), |d: int| variable_frame(stack[d]@))
}

/// The state of an interpretation.
pub struct Engine<'a> {
    pub declaration_stack: DeclarationStack<'a>,
    pub variable_stack: VariableStack,
    /// What the program has printed, in order.
    pub output: Vec<TValue>,
    /// How many answers of the host have been used.
    pub asked: usize,
    /// The instances that have been made.
    pub heap: Vec<Instance<'a>>,
    /// The instance on which a method or a constructor is running.
    pub receiver: Option<usize>,
    /// The class whose code is running, followed by its bases.
    pub context: Vec<ClassRef<'a>>,
    /// The names of the functions that the host has made known.
    pub builtins: Vec<String>,
    /// The depth of the scope that declares the outermost of the namespaces in `chain`.
    pub home: usize,
    /// The namespaces to which the code that is running belongs, the outermost first.
    pub chain: Vec<&'a Namespace>,
}

impl<'a> View for Engine<'a> {
    type V = State<'a>;

    open spec fn view(&self) -> State<'a> {
        State {
            declarations: declaration_frames(self.declaration_stack@),
            variables: variable_frames(self.variable_stack@),
            output: values_view(self.output@),
            asked: self.asked as nat,
            heap: heap_view(self.heap@),
            receiver: match self.receiver {
                Some(handle) => Some(handle as nat),
                None => None,
            },
            context: self.context@,
            builtins: names_view(self.builtins@),
            home: self.home as nat,
            chain: self.chain@,
        }
    }
}

/// The position of the first entry of a scope with the given name.
pub fn find_name<'a, T>(scope: &Vec<(&'a Identifier, T)>, name: &Identifier) -> (r: Option<usize>)
    ensures
        match r {
            Some(i) => i < scope@.len() && scope@[i as int].0.text() == name.text() && forall|
                j: int,
            |
                0 <= j < i ==> scope@[j].0.text() != name.text(),
            None => forall|j: int| 0 <= j < scope@.len() ==> scope@[j].0.text() != name.text(),
        },
{
    let mut i: usize = 0;
    while i < scope.len()
        invariant
            i <= scope@.len(),
            forall|j: int| 0 <= j < i ==> scope@[j].0.text() != name.text(),
        decreases scope@.len() - i,
    {
        if scope[i].0.same(name) {
            return Some(i);
        }
        i += 1;
    }
    None
}

/// The position of the first variable of a scope with the given name.
pub fn find_bound(scope: &Vec<(Identifier, TValue)>, name: &Identifier) -> (r: Option<usize>)
    ensures
        match r {
            Some(i) => i < scope@.len() && scope@[i as int].0.text() == name.text() && forall|
                j: int,
            |
                0 <= j < i ==> scope@[j].0.text() != name.text(),
            None => forall|j: int| 0 <= j < scope@.len() ==> scope@[j].0.text() != name.text(),
        },
{
    let mut i: usize = 0;
    while i < scope.len()
        invariant
            i <= scope@.len(),
            forall|j: int| 0 <= j < i ==> scope@[j].0.text() != name.text(),
        decreases scope@.len() - i,
    {
        if scope[i].0.same(name) {
            return Some(i);
        }
        i += 1;
    }
    None
}

/// A position found by [`find_name`] is the one that the model of the scope gives.
pub proof fn lemma_found<T>(frame: Frame<T>, name: Seq<char>, found: Option<int>)
    requires
        match found {
            Some(i) => 0 <= i < frame.len() && frame[i].0 == name && forall|j: int|
                0 <= j < i ==> frame[j].0 != name,
            None => forall|j: int| 0 <= j < frame.len() ==> frame[j].0 != name,
        },
    ensures
        entry_index(frame, name) == found,
{
    lemma_entry_index(frame, name);
}

impl<'a> Engine<'a> {
    /// An engine in which nothing has run.
    pub fn new() -> (engine: Engine<'a>)
        ensures
            engine@ == State::<'a>::initial(),
            engine@.wf(),
    {
        let engine = Engine {
            declaration_stack: Vec::new(),
            variable_stack: Vec::new(),
            output: Vec::new(),
            asked: 0,
            heap: Vec::new(),
            receiver: None,
            context: Vec::new(),
            builtins: Vec::new(),
            home: 0,
            chain: Vec::new(),
        };
        assert(engine@.declarations =~= Seq::empty());
        assert(engine@.variables =~= Seq::empty());
        assert(engine@.output =~= Seq::empty());
        assert(engine@.heap =~= Seq::empty());
        assert(engine@.builtins =~= Seq::empty());
        engine
    }

    /// An engine in which nothing has run, with the names of the functions that the host
    /// offers.
    pub fn with_builtins(builtins: Vec<String>) -> (engine: Engine<'a>)
        ensures
            engine@ == (State { builtins: names_view(builtins@), ..State::<'a>::initial() }),
            engine@.wf(),
    {
        let engine = Engine {
            declaration_stack: Vec::new(),
            variable_stack: Vec::new(),
            output: Vec::new(),
            asked: 0,
            heap: Vec::new(),
            receiver: None,
            context: Vec::new(),
            builtins,
            home: 0,
            chain: Vec::new(),
        };
        assert(engine@.declarations =~= Seq::empty());
        assert(engine@.variables =~= Seq::empty());
        assert(engine@.output =~= Seq::empty());
        assert(engine@.heap =~= Seq::empty());
        engine
    }

    /// How many scopes are open.
    pub fn depth(&self) -> (depth: usize)
        ensures
            depth == self@.depth(),
    {
        self.variable_stack.len()
    }

    /// Opens a new scope on both stacks.
    pub fn enter(&mut self)
        requires
            old(self)@.wf(),
        ensures
            final(self)@ == old(self)@.enter(),
            final(self)@.wf(),
    {
        self.declaration_stack.push(Vec::new());
        self.variable_stack.push(Vec::new());
        proof {
            let before = old(self)@;
            let after = self@;
            assert(declaration_frame(Seq::empty()) =~= Seq::empty());
            assert(variable_frame(Seq::empty()) =~= Seq::empty());
            assert(after.declarations =~= before.declarations.push(Seq::empty()));
            assert(after.variables =~= before.variables.push(Seq::empty()));
        }
    }

    /// Closes the innermost scope of both stacks, with all that it binds.
    pub fn leave(&mut self)
        requires
            old(self)@.wf(),
            old(self)@.depth() > 0,
        ensures
            final(self)@ == old(self)@.leave(),
            final(self)@.wf(),
    {
        self.declaration_stack.pop();
        self.variable_stack.pop();
        proof {
            let before = old(self)@;
            let after = self@;
            assert(after.declarations =~= before.declarations.drop_last());
            assert(after.variables =~= before.variables.drop_last());
        }
    }

    /// Adds a declaration to the innermost scope, unless that scope declares the name already.
    pub fn register(&mut self, name: &'a Identifier, item: DeclStackItem<'a>) -> (r: Result<
        (),
        InterpreterError,
    >)
        requires
            old(self)@.wf(),
            old(self)@.depth() > 0,
        ensures
            final(self)@.wf(),
            r is Err <==> old(self)@.declares_here(name.text()),
            match r {
                Ok(_) => final(self)@ == old(self)@.register(name.text(), item),
                Err(error) => final(self)@ == old(self)@ && error
                    == InterpreterError::ConflictWithPreviousDeclaration(*name),
            },
    {
        let top = self.declaration_stack.len() - 1;
        let found = find_name(&self.declaration_stack[top], name);
        proof {
            lemma_found(
                self@.declarations[top as int],
                name.text(),
                match found {
                    Some(i) => Some(i as int),
                    None => None,
                },
            );
        }
        match found {
            Some(_) => Err(InterpreterError::ConflictWithPreviousDeclaration(name.clone())),
            None => {
                self.declaration_stack[top].push((name, item));
                proof {
                    let before = old(self)@;
                    let after = self@;
                    lemma_push_binding(
                        before.declarations[top as int],
                        name.text(),
                        item,
                        name.text(),
                    );
                    assert(after.declarations[top as int] =~= before.declarations[top as int].push(
                        (name.text(), item),
                    ));
                    assert(after.declarations =~= declared(before.declarations, name.text(), item));
                    assert(after.variables =~= before.variables);
                }
                Ok(())
            },
        }
    }

    /// The innermost declaration of the name, with the depth of its scope.
    pub fn find_declaration(&self, name: &Identifier) -> (r: Option<(usize, DeclStackItem<'a>)>)
        ensures
            match r {
                Some((depth, item)) => self@.declaration(name.text()) == Some((depth as int, item)),
                None => self@.declaration(name.text()) is None,
            },
    {
        let mut depth = self.declaration_stack.len();
        while depth > 0
            invariant
                depth <= self.declaration_stack@.len(),
                forall|d: int|
                    depth <= d < self@.declarations.len() ==> !binds(
                        #[trigger] self@.declarations[d],
                        name.text(),
                    ),
            decreases depth,
        {
            depth -= 1;
            let found = find_name(&self.declaration_stack[depth], name);
            proof {
                lemma_found(
                    self@.declarations[depth as int],
                    name.text(),
                    match found {
                        Some(i) => Some(i as int),
                        None => None,
                    },
                );
            }
            if let Some(i) = found {
                proof {
                    lemma_resolve_is(self@.declarations, name.text(), depth as int);
                }
                return Some((depth, self.declaration_stack[depth][i].1));
            }
        }
        proof {
            lemma_resolve_none(self@.declarations, name.text());
        }
        None
    }

    /// The innermost declaration of the name among the outermost `limit` scopes, with the
    /// depth of its scope.
    pub fn find_declaration_within(&self, name: &Identifier, limit: usize) -> (r: Option<
        (usize, DeclStackItem<'a>),
    >)
        requires
            limit <= self@.declarations.len(),
        ensures
            match r {
                Some((depth, item)) => resolve(self@.declarations.take(limit as int), name.text())
                    == Some(depth as int) && bound(self@.declarations[depth as int], name.text())
                    == item && depth < limit,
                None => resolve(self@.declarations.take(limit as int), name.text()) is None,
            },
    {
        let ghost outer = self@.declarations.take(limit as int);
        let mut depth = limit;
        while depth > 0
            invariant
                depth <= limit,
                limit <= self.declaration_stack@.len(),
                outer == self@.declarations.take(limit as int),
                forall|d: int| depth <= d < outer.len() ==> !binds(#[trigger] outer[d], name.text()),
            decreases depth,
        {
            depth -= 1;
            let found = find_name(&self.declaration_stack[depth], name);
            proof {
                assert(outer[depth as int] == self@.declarations[depth as int]);
                lemma_found(
                    self@.declarations[depth as int],
                    name.text(),
                    match found {
                        Some(i) => Some(i as int),
                        None => None,
                    },
                );
            }
            if let Some(i) = found {
                proof {
                    lemma_resolve_is(outer, name.text(), depth as int);
                }
                return Some((depth, self.declaration_stack[depth][i].1));
            }
        }
        proof {
            lemma_resolve_none(outer, name.text());
        }
        None
    }

    /// Adds a variable to the innermost scope, unless that scope holds one of the name already.
    pub fn declare_variable(&mut self, name: &Identifier, value: TValue) -> (r: Result<
        (),
        InterpreterError,
    >)
        requires
            old(self)@.wf(),
            old(self)@.depth() > 0,
        ensures
            final(self)@.wf(),
            r is Err <==> old(self)@.binds_here(name.text()),
            match r {
                Ok(_) => final(self)@ == old(self)@.bind(name.text(), value@),
                Err(error) => final(self)@ == old(self)@ && error
                    == InterpreterError::ConflictWithPreviousDeclaration(*name),
            },
    {
        let top = self.variable_stack.len() - 1;
        let found = find_bound(&self.variable_stack[top], name);
        proof {
            lemma_found(
                self@.variables[top as int],
                name.text(),
                match found {
                    Some(i) => Some(i as int),
                    None => None,
                },
            );
        }
        match found {
            Some(_) => Err(InterpreterError::ConflictWithPreviousDeclaration(name.clone())),
            None => {
                self.variable_stack[top].push((name.clone(), value));
                proof {
                    let before = old(self)@;
                    let after = self@;
                    lemma_push_binding(
                        before.variables[top as int],
                        name.text(),
                        value@,
                        name.text(),
                    );
                    assert(after.variables[top as int] =~= before.variables[top as int].push(
                        (name.text(), value@),
                    ));
                    assert(after.variables =~= declared(before.variables, name.text(), value@));
                    assert(after.declarations =~= before.declarations);
                }
                Ok(())
            },
        }
    }

    /// Where the innermost variable of the name is: the depth of its scope and its position
    /// there.
    pub fn find_variable(&self, name: &Identifier) -> (r: Option<(usize, usize)>)
        ensures
            match r {
                Some((depth, at)) => resolve(self@.variables, name.text()) == Some(depth as int)
                    && entry_index(self@.variables[depth as int], name.text()) == Some(at as int)
                    && depth < self.variable_stack@.len() && at
                    < self.variable_stack@[depth as int]@.len(),
                None => resolve(self@.variables, name.text()) is None,
            },
    {
        let mut depth = self.variable_stack.len();
        while depth > 0
            invariant
                depth <= self.variable_stack@.len(),
                forall|d: int|
                    depth <= d < self@.variables.len() ==> !binds(
                        #[trigger] self@.variables[d],
                        name.text(),
                    ),
            decreases depth,
        {
            depth -= 1;
            let found = find_bound(&self.variable_stack[depth], name);
            proof {
                lemma_found(
                    self@.variables[depth as int],
                    name.text(),
                    match found {
                        Some(i) => Some(i as int),
                        None => None,
                    },
                );
            }
            if let Some(i) = found {
                proof {
                    lemma_resolve_is(self@.variables, name.text(), depth as int);
                }
                return Some((depth, i));
            }
        }
        proof {
            lemma_resolve_none(self@.variables, name.text());
        }
        None
    }

    /// The value of the innermost variable of the name.
    pub fn variable(&self, name: &Identifier) -> (r: Option<TValue>)
        ensures
            match r {
                Some(value) => self@.variable(name.text()) == Some(value@),
                None => self@.variable(name.text()) is None,
            },
    {
        match self.find_variable(name) {
            Some((depth, at)) => Some(self.variable_stack[depth][at].1.clone()),
            None => None,
        }
    }

    /// The value of the variable of the given name in the scope at the given depth.
    pub fn variable_at(&self, depth: usize, name: &Identifier) -> (r: Option<TValue>)
        ensures
            match r {
                Some(value) => self@.variable_at(depth as int, name.text()) == Some(value@),
                None => self@.variable_at(depth as int, name.text()) is None,
            },
    {
        if depth >= self.variable_stack.len() {
            return None;
        }
        let found = find_bound(&self.variable_stack[depth], name);
        proof {
            lemma_found(
                self@.variables[depth as int],
                name.text(),
                match found {
                    Some(i) => Some(i as int),
                    None => None,
                },
            );
        }
        match found {
            Some(at) => Some(self.variable_stack[depth][at].1.clone()),
            None => None,
        }
    }

    /// Gives the variable of the given name in the scope at the given depth a new value.
    /// Nothing changes where there is no such variable.
    pub fn assign_at(&mut self, depth: usize, name: &Identifier, value: TValue)
        requires
            old(self)@.wf(),
        ensures
            final(self)@.wf(),
            final(self)@ == old(self)@.assign_at(depth as int, name.text(), value@),
    {
        if depth >= self.variable_stack.len() {
            return ;
        }
        let found = find_bound(&self.variable_stack[depth], name);
        proof {
            lemma_found(
                self@.variables[depth as int],
                name.text(),
                match found {
                    Some(i) => Some(i as int),
                    None => None,
                },
            );
        }
        if let Some(at) = found {
            self.variable_stack[depth][at].1 = value;
            proof {
                let before = old(self)@;
                let after = self@;
                lemma_entry_index(before.variables[depth as int], name.text());
                lemma_rebound(before.variables[depth as int], name.text(), value@, name.text());
                assert(after.variables[depth as int] =~= rebound(
                    before.variables[depth as int],
                    name.text(),
                    value@,
                ));
                assert(after.variables =~= before.variables.update(
                    depth as int,
                    rebound(before.variables[depth as int], name.text(), value@),
                ));
                assert(after.declarations =~= before.declarations);
            }
        }
    }

    /// Gives the innermost variable of the name a new value. False where there is no such
    /// variable; nothing changes then.
    pub fn assign(&mut self, name: &Identifier, value: TValue) -> (r: bool)
        requires
            old(self)@.wf(),
        ensures
            final(self)@.wf(),
            r == old(self)@.variable(name.text()).is_some(),
            final(self)@ == if r {
                old(self)@.assign(name.text(), value@)
            } else {
                old(self)@
            },
    {
        match self.find_variable(name) {
            Some((depth, at)) => {
                self.variable_stack[depth][at].1 = value;
                proof {
                    let before = old(self)@;
                    let after = self@;
                    lemma_entry_index(before.variables[depth as int], name.text());
                    lemma_rebound(before.variables[depth as int], name.text(), value@, name.text());
                    assert(after.variables[depth as int] =~= rebound(
                        before.variables[depth as int],
                        name.text(),
                        value@,
                    ));
                    assert(after.variables =~= stored(before.variables, name.text(), value@));
                    assert(after.declarations =~= before.declarations);
                }
                true
            },
            None => false,
        }
    }

    /// Takes the scopes that lie further in than the given depth off both stacks and hands
    /// them out.
    pub fn detach(&mut self, depth: usize) -> (saved: (DeclarationStack<'a>, VariableStack))
        requires
            old(self)@.wf(),
            depth < old(self)@.depth(),
        ensures
            final(self)@.wf(),
            final(self)@ == (State {
                declarations: old(self)@.declarations.take(depth + 1),
                variables: old(self)@.variables.take(depth + 1),
                ..old(self)@
            }),
            declaration_frames(saved.0@) == old(self)@.declarations.skip(depth + 1),
            variable_frames(saved.1@) == old(self)@.variables.skip(depth + 1),
    {
        let open = self.variable_stack.len();
        assert(depth < open);
        assert(self@.declarations.len() == self.declaration_stack@.len());
        let declarations = self.declaration_stack.split_off(depth + 1);
        let variables = self.variable_stack.split_off(depth + 1);
        proof {
            let before = old(self)@;
            let after = self@;
            assert(after.declarations =~= before.declarations.take(depth + 1));
            assert(after.variables =~= before.variables.take(depth + 1));
            assert(declaration_frames(declarations@) =~= before.declarations.skip(depth + 1));
            assert(variable_frames(variables@) =~= before.variables.skip(depth + 1));
        }
        (declarations, variables)
    }

    /// Puts scopes back on top of both stacks.
    pub fn attach(&mut self, saved: (DeclarationStack<'a>, VariableStack))
        requires
            old(self)@.wf(),
            saved.0@.len() == saved.1@.len(),
            forall|d: int|
                0 <= d < saved.0@.len() ==> distinct(#[trigger] declaration_frames(saved.0@)[d]),
            forall|d: int|
                0 <= d < saved.1@.len() ==> distinct(#[trigger] variable_frames(saved.1@)[d]),
        ensures
            final(self)@.wf(),
            final(self)@ == (State {
                declarations: old(self)@.declarations + declaration_frames(saved.0@),
                variables: old(self)@.variables + variable_frames(saved.1@),
                ..old(self)@
            }),
    {
        let mut declarations = saved.0;
        let mut variables = saved.1;
        self.declaration_stack.append(&mut declarations);
        self.variable_stack.append(&mut variables);
        proof {
            let before = old(self)@;
            let after = self@;
            assert(after.declarations =~= before.declarations + declaration_frames(saved.0@));
            assert(after.variables =~= before.variables + variable_frames(saved.1@));
        }
    }

    /// Records a printed value.
    pub fn print(&mut self, value: TValue)
        ensures
            final(self)@ == old(self)@.print(value@),
            old(self)@.wf() ==> final(self)@.wf(),
    {
        self.output.push(value);
        proof {
            assert(self@.output =~= old(self)@.output.push(value@));
        }
    }
}

} // verus!
