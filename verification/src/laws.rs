//! What holds of every program: laws of scopes, of equality and of the way control leaves
//! blocks, loops, calls and handlers.

use vstd::prelude::*;
use crate::ast::{
    BinaryOperation, BinaryOperator, Block, BlockItem, Class, Expression, ForLoop, Function,
    FunctionCall, FunctionCallArgument, Group, Identifier, Literal, Name, Statement, TryCatch,
    Variable, WhileLoop,
};
use crate::classes::{allowed, descends, lineage_field, same_class, Visibility};
use crate::completion::{done, value, Completion, Flow, HostAnswer};
use crate::engine::ClassRef;
use crate::engine::State;
use crate::operators::Applied;
use crate::scope::{
    binds, bound, declared, distinct, lemma_push_binding, lemma_resolve_is, DeclStackItem,
};
use crate::semantics::{
    call_result, evaluate, evaluate_all, evaluate_arguments, evaluate_binary, evaluate_call,
    evaluate_entries, evaluate_literal, hoist, hoisted, round_state, run, run_block, run_do_while,
    run_for, run_item, run_items, run_while,
};
use crate::value::{TValue, Value};

verus! {

/// Making declarations known changes no variable and opens or closes no scope.
pub proof fn law_hoisting_keeps_variables<'a>(
    items: &'a Vec<BlockItem>,
    from: int,
    state: State<'a>,
)
    requires
        state.declarations.len() > 0,
    ensures
        hoist(items, from, state).0.variables == state.variables,
        hoist(items, from, state).0.declarations.len() == state.declarations.len(),
        hoist(items, from, state).0.output == state.output,
        hoist(items, from, state).0.asked == state.asked,
    decreases items@.len() - from,
{
    if 0 <= from < items@.len() {
        match hoisted(&items@[from]) {
            Some((identifier, item)) => {
                if !state.declares_here(identifier.text()) {
                    law_hoisting_keeps_variables(
                        items,
                        from + 1,
                        state.register(identifier.text(), item),
                    );
                }
            },
            None => {
                law_hoisting_keeps_variables(items, from + 1, state);
            },
        }
    }
}

/// A name that the innermost scope declares stays declared as it is while further
/// declarations are made known without conflict.
pub proof fn law_hoisting_keeps_declarations<'a>(
    items: &'a Vec<BlockItem>,
    from: int,
    state: State<'a>,
    name: Seq<char>,
)
    requires
        state.declarations.len() > 0,
        state.declares_here(name),
        hoist(items, from, state).1 is None,
    ensures
        hoist(items, from, state).0.declares_here(name),
        bound(hoist(items, from, state).0.declarations.last(), name) == bound(
            state.declarations.last(),
            name,
        ),
    decreases items@.len() - from,
{
    if 0 <= from < items@.len() {
        match hoisted(&items@[from]) {
            Some((identifier, item)) => {
                let next = state.register(identifier.text(), item);
                lemma_push_binding(state.declarations.last(), identifier.text(), item, name);
                assert(next.declarations.last() == state.declarations.last().push(
                    (identifier.text(), item),
                ));
                law_hoisting_keeps_declarations(items, from + 1, next, name);
            },
            None => {
                law_hoisting_keeps_declarations(items, from + 1, state, name);
            },
        }
    }
}

/// A function, a class or a namespace is known in the whole of its block, wherever in the
/// block it is declared: once the declarations of a block have been made known without
/// conflict, the name of each of them leads to it, and that in the innermost scope.
pub proof fn law_hoisted_declarations_are_visible<'a>(
    items: &'a Vec<BlockItem>,
    from: int,
    state: State<'a>,
    position: int,
)
    requires
        state.declarations.len() > 0,
        0 <= from <= position < items@.len(),
        hoisted(&items@[position]) is Some,
        hoist(items, from, state).1 is None,
    ensures
        hoist(items, from, state).0.declaration(hoisted(&items@[position]).unwrap().0.text())
            == Some(
            ((state.declarations.len() - 1) as int, hoisted(&items@[position]).unwrap().1),
        ),
    decreases items@.len() - from,
{
    let (wanted, target) = hoisted(&items@[position]).unwrap();
    let after = hoist(items, from, state).0;
    law_hoisting_keeps_variables(items, from, state);
    if from == position {
        let next = state.register(wanted.text(), target);
        lemma_push_binding(state.declarations.last(), wanted.text(), target, wanted.text());
        assert(next.declarations.last() == state.declarations.last().push((wanted.text(), target)));
        law_hoisting_keeps_variables(items, from + 1, next);
        law_hoisting_keeps_declarations(items, from + 1, next, wanted.text());
        lemma_resolve_is(after.declarations, wanted.text(), after.declarations.len() - 1);
    } else {
        match hoisted(&items@[from]) {
            Some((identifier, item)) => {
                law_hoisted_declarations_are_visible(
                    items,
                    from + 1,
                    state.register(identifier.text(), item),
                    position,
                );
            },
            None => {
                law_hoisted_declarations_are_visible(items, from + 1, state, position);
            },
        }
    }
}

/// A variable of a block is not known before its declaration has run: making the
/// declarations of the block known binds no variable, so that the new scope holds none when
/// that is done.
pub proof fn law_variables_are_hidden_at_entry<'a>(
    items: &'a Vec<BlockItem>,
    state: State<'a>,
    name: Seq<char>,
)
    ensures
        !hoist(items, 0, state.enter()).0.binds_here(name),
{
    law_hoisting_keeps_variables(items, 0, state.enter());
    assert(state.enter().variables.last() =~= Seq::empty());
}

/// Once it is declared, a variable is known by its name, and hides every variable of that
/// name further out.
pub proof fn law_declared_variable_is_visible<'a>(state: State<'a>, name: Seq<char>, value: Value)
    requires
        state.depth() > 0,
        !state.binds_here(name),
    ensures
        state.bind(name, value).variable(name) == Some(value),
        state.bind(name, value).binds_here(name),
{
    let after = state.bind(name, value);
    lemma_push_binding(state.variables.last(), name, value, name);
    assert(after.variables.last() == state.variables.last().push((name, value)));
    lemma_resolve_is(after.variables, name, after.variables.len() - 1);
}

/// Once it is declared, a name cannot be declared again in the same scope: the scope binds
/// it, which is when the engine reports a conflict.
pub proof fn law_redeclaring_conflicts<'a>(
    state: State<'a>,
    name: Seq<char>,
    value: Value,
    item: DeclStackItem<'a>,
)
    requires
        state.wf(),
        state.depth() > 0,
    ensures
        state.bind(name, value).binds_here(name),
        state.register(name, item).declares_here(name),
{
    lemma_push_binding(state.variables.last(), name, value, name);
    assert(state.bind(name, value).variables.last() == state.variables.last().push((name, value)));
    lemma_push_binding(state.declarations.last(), name, item, name);
    assert(state.register(name, item).declarations.last() == state.declarations.last().push(
        (name, item),
    ));
}

/// A name that a scope further out binds can always be declared in a new scope. There it
/// hides the outer binding, and when the new scope is closed the outer binding is back as
/// it was.
pub proof fn law_nested_declaration_shadows<'a>(state: State<'a>, name: Seq<char>, value: Value)
    ensures
        !state.enter().binds_here(name),
        !state.enter().declares_here(name),
        state.enter().bind(name, value).variable(name) == Some(value),
        state.enter().bind(name, value).leave() == state,
        state.wf() ==> state.enter().bind(name, value).wf(),
{
    let inner = state.enter();
    assert(inner.variables.last() =~= Seq::empty());
    assert(inner.declarations.last() =~= Seq::empty());
    law_declared_variable_is_visible(inner, name, value);
    let after = inner.bind(name, value);
    assert(after.leave().variables =~= state.variables);
    assert(after.leave().declarations =~= state.declarations);
    if state.wf() {
        lemma_push_binding(inner.variables.last(), name, value, name);
        assert(after.variables.last() == inner.variables.last().push((name, value)));
        assert forall|d: int| 0 <= d < after.variables.len() implies distinct(
            #[trigger] after.variables[d],
        ) by {
            if d < state.variables.len() {
                assert(after.variables[d] == state.variables[d]);
            }
        }
        assert forall|d: int| 0 <= d < after.declarations.len() implies distinct(
            #[trigger] after.declarations[d],
        ) by {
            if d < state.declarations.len() {
                assert(after.declarations[d] == state.declarations[d]);
            }
        }
    }
}

/// `Eq` and `Neq` answer for every pair of values, whatever their shapes, and never agree.
pub proof fn law_equality_is_total(left: Value, right: Value)
    ensures
        left.binary(right, BinaryOperator::Eq) == Applied::<Value, crate::error::Failure>::Value(
            Value::Boolean(left.same(right)),
        ),
        left.binary(right, BinaryOperator::Neq) == Applied::<Value, crate::error::Failure>::Value(
            Value::Boolean(!left.same(right)),
        ),
{
}

/// Whether a result is a `Break` or a `Continue`.
pub open spec fn is_jump<'a>(flow: Flow<'a, Value>) -> bool {
    flow == Ok::<Completion<Value>, crate::completion::Interrupt<'a, Value>>(Completion::Break)
        || flow == Ok::<Completion<Value>, crate::completion::Interrupt<'a, Value>>(
        Completion::Continue,
    )
}

/// An outcome other than the normal one ends a block at once: the items after it do not run,
/// and the block ends the same way, with its scope closed. So a `Break` that stands in a
/// block leaves the block as a `Break`.
pub proof fn law_block_passes_outcome_on<'a>(
    items: &'a Vec<BlockItem>,
    from: int,
    state: State<'a>,
    answers: Seq<HostAnswer<TValue>>,
    fuel: nat,
)
    requires
        0 <= from < items@.len(),
        fuel > 0,
        !(run_item(&items@[from], state, answers, (fuel - 1) as nat).1 matches Ok(
            Completion::Normal(_),
        )),
    ensures
        run_items(items, from, state, answers, fuel) == run_item(
            &items@[from],
            state,
            answers,
            (fuel - 1) as nat,
        ),
{
}

/// A block ends the way its items end, once its declarations are known and the variables
/// that its classes declare for all their instances are bound.
pub proof fn law_block_ends_as_its_items<'a>(
    block: &'a Block,
    state: State<'a>,
    answers: Seq<HostAnswer<TValue>>,
    fuel: nat,
)
    requires
        fuel > 0,
        hoist(&block.0, 0, state.enter()).1 is None,
        crate::semantics::bind_shared(
            &block.0,
            0,
            hoist(&block.0, 0, state.enter()).0,
            answers,
            (fuel - 1) as nat,
        ).1 matches Ok(Completion::Normal(_)),
    ensures
        run_block(block, state, answers, fuel).1 == run_items(
            &block.0,
            0,
            crate::semantics::bind_shared(
                &block.0,
                0,
                hoist(&block.0, 0, state.enter()).0,
                answers,
                (fuel - 1) as nat,
            ).0,
            answers,
            (fuel - 1) as nat,
        ).1,
{
    assert(crate::semantics::run_body(&block.0, state.enter(), answers, (fuel - 1) as nat).1
        == run_items(
        &block.0,
        0,
        crate::semantics::bind_shared(
            &block.0,
            0,
            hoist(&block.0, 0, state.enter()).0,
            answers,
            (fuel - 1) as nat,
        ).0,
        answers,
        (fuel - 1) as nat,
    ).1);
}

/// A `Break` in the body of a `for` loop ends that loop and nothing else: the loop ends
/// normally, in the state that the round left, and no further round runs.
pub proof fn law_break_ends_for_loop<'a>(
    for_loop: &'a ForLoop,
    items: Seq<Value>,
    from: int,
    state: State<'a>,
    answers: Seq<HostAnswer<TValue>>,
    fuel: nat,
)
    requires
        0 <= from < items.len(),
        fuel > 0,
        round_state(for_loop, items[from], state) is Ok,
        run(
            &*for_loop.do_for_each,
            round_state(for_loop, items[from], state)->Ok_0,
            answers,
            (fuel - 1) as nat,
        ).1 == Ok::<Completion<Value>, crate::completion::Interrupt<'a, Value>>(Completion::Break),
    ensures
        run_for(for_loop, items, from, state, answers, fuel) == (
            run(
                &*for_loop.do_for_each,
                round_state(for_loop, items[from], state)->Ok_0,
                answers,
                (fuel - 1) as nat,
            ).0.leave(),
            done(),
        ),
{
}

/// No `Break` and no `Continue` leaves a `for` loop.
pub proof fn law_for_loop_keeps_jumps<'a>(
    for_loop: &'a ForLoop,
    items: Seq<Value>,
    from: int,
    state: State<'a>,
    answers: Seq<HostAnswer<TValue>>,
    fuel: nat,
)
    ensures
        !is_jump(run_for(for_loop, items, from, state, answers, fuel).1),
    decreases items.len() - from,
{
    if 0 <= from < items.len() && fuel > 0 {
        match round_state(for_loop, items[from], state) {
            Err(_) => {},
            Ok(inner) => {
                let (after, outcome) = run(
                    &*for_loop.do_for_each,
                    inner,
                    answers,
                    (fuel - 1) as nat,
                );
                match outcome {
                    Ok(Completion::Normal(_)) | Ok(Completion::Continue) => {
                        law_for_loop_keeps_jumps(
                            for_loop,
                            items,
                            from + 1,
                            after.leave(),
                            answers,
                            fuel,
                        );
                    },
                    _ => {},
                }
            },
        }
    }
}

/// Whether a result is one that an expression can have: a value, a thrown value, or the end
/// of the interpretation.
pub open spec fn is_value_or_throw<'a>(flow: Flow<'a, Value>) -> bool {
    match flow {
        Ok(Completion::Normal(Some(_))) => true,
        Ok(Completion::Throw(_)) => true,
        Err(_) => true,
        _ => false,
    }
}

/// An expression gives a value or throws one: no `Break`, no `Continue` and no `Return`
/// comes out of it.
pub proof fn law_expression_gives_value_or_throws<'a>(
    expression: &'a Expression,
    state: State<'a>,
    answers: Seq<HostAnswer<TValue>>,
    fuel: nat,
)
    ensures
        is_value_or_throw(evaluate(expression, state, answers, fuel).1),
    decreases fuel, 0nat,
{
    if fuel > 0 {
        let fuel = (fuel - 1) as nat;
        match expression {
            Expression::Literal(literal) => {
                lemma_literal_gives_value_or_throws(literal, state, answers, fuel);
            },
            Expression::Group(Group::Rounded(inner)) => {
                law_expression_gives_value_or_throws(&**inner, state, answers, fuel);
            },
            Expression::Group(Group::Square(inner)) => {
                law_expression_gives_value_or_throws(&**inner, state, answers, fuel);
            },
            Expression::Group(Group::Curly(inner)) => {
                law_expression_gives_value_or_throws(&**inner, state, answers, fuel);
            },
            Expression::UnaryOperation(operation) => {
                law_expression_gives_value_or_throws(&*operation.expression, state, answers, fuel);
            },
            Expression::BinaryOperation(operation) => {
                lemma_binary_gives_value_or_throws(operation, state, answers, fuel);
            },
            Expression::FunctionCall(call) => {
                lemma_call_gives_value_or_throws(call, state, answers, fuel);
            },
            Expression::ItemAccess(access) => {
                law_expression_gives_value_or_throws(&*access.set, state, answers, fuel);
                let first = evaluate(&*access.set, state, answers, fuel).0;
                law_expression_gives_value_or_throws(&*access.index, first, answers, fuel);
            },
            Expression::MemberAccess(access) => {
                law_expression_gives_value_or_throws(&*access.expression, state, answers, fuel);
            },
            Expression::Name(name) => {},
        }
    }
}

proof fn lemma_binary_gives_value_or_throws<'a>(
    operation: &'a BinaryOperation,
    state: State<'a>,
    answers: Seq<HostAnswer<TValue>>,
    fuel: nat,
)
    ensures
        is_value_or_throw(evaluate_binary(operation, state, answers, fuel).1),
    decreases fuel, 0nat,
{
    if fuel > 0 {
        let fuel = (fuel - 1) as nat;
        law_expression_gives_value_or_throws(&*operation.left, state, answers, fuel);
        let first = evaluate(&*operation.left, state, answers, fuel).0;
        law_expression_gives_value_or_throws(&*operation.right, first, answers, fuel);
    }
}

proof fn lemma_call_gives_value_or_throws<'a>(
    call: &'a FunctionCall,
    state: State<'a>,
    answers: Seq<HostAnswer<TValue>>,
    fuel: nat,
)
    ensures
        is_value_or_throw(evaluate_call(call, state, answers, fuel).1),
    decreases fuel, 2nat,
{
    if fuel > 0 {
        let fuel = (fuel - 1) as nat;
        match &*call.expression {
            Expression::Name(name) => {
                if name.0@.len() == 1 {
                    lemma_named_call_gives_value_or_throws(
                        &name.0@[0],
                        call,
                        state,
                        answers,
                        fuel,
                    );
                } else {
                    lemma_qualified_call_gives_value_or_throws(name, call, state, answers, fuel);
                    match crate::semantics::place_of_name(&name.0, state) {
                        Ok((root, steps)) => if steps.len() > 0 {
                            match crate::semantics::root_value(root, state) {
                                Some(start) => {
                                    match crate::semantics::read_path(
                                        start,
                                        steps.drop_last(),
                                        0,
                                        state,
                                    ) {
                                        Ok(target) => {
                                            lemma_method_call_gives_value_or_throws(
                                                target,
                                                &name.0@[name.0@.len() - 1],
                                                call,
                                                state,
                                                answers,
                                                fuel,
                                            );
                                        },
                                        Err(_) => {},
                                    }
                                },
                                None => {},
                            }
                        },
                        Err(_) => {},
                    }
                }
            },
            Expression::MemberAccess(access) => {
                law_expression_gives_value_or_throws(&*access.expression, state, answers, fuel);
                let (after, container) = evaluate(&*access.expression, state, answers, fuel);
                match crate::completion::value_of(container) {
                    Some(target) => {
                        lemma_method_call_gives_value_or_throws(
                            target,
                            &access.identifier,
                            call,
                            after,
                            answers,
                            fuel,
                        );
                    },
                    None => {},
                }
            },
            _ => {},
        }
    }
}

proof fn lemma_qualified_call_gives_value_or_throws<'a>(
    name: &'a Name,
    call: &'a FunctionCall,
    state: State<'a>,
    answers: Seq<HostAnswer<TValue>>,
    fuel: nat,
)
    ensures
        is_value_or_throw(crate::semantics::call_qualified(name, call, state, answers, fuel).1),
    decreases fuel, 1nat,
{
    if fuel > 0 {
        let fuel = (fuel - 1) as nat;
        lemma_arguments_give_values_or_throw(
            &call.arguments,
            0,
            Seq::empty(),
            state,
            answers,
            fuel,
        );
        match crate::semantics::qualified(
            &name.0,
            name.0@.len() as int,
            state.declarations,
            state.home as int,
            state.chain,
            state.context,
        ) {
            Ok((origin, (DeclStackItem::Class(class), _, _))) => {
                lemma_instance_is_value_or_throws(class, origin, call, state, answers, fuel);
            },
            _ => {},
        }
    }
}

proof fn lemma_named_call_gives_value_or_throws<'a>(
    name: &'a Identifier,
    call: &'a FunctionCall,
    state: State<'a>,
    answers: Seq<HostAnswer<TValue>>,
    fuel: nat,
)
    ensures
        is_value_or_throw(crate::semantics::call_name(name, call, state, answers, fuel).1),
    decreases fuel, 1nat,
{
    if fuel > 0 {
        let fuel = (fuel - 1) as nat;
        lemma_arguments_give_values_or_throw(
            &call.arguments,
            0,
            Seq::empty(),
            state,
            answers,
            fuel,
        );
        if state.receiver is Some {
            lemma_method_call_gives_value_or_throws(
                Value::Object(state.receiver.unwrap()),
                name,
                call,
                state,
                answers,
                fuel,
            );
        }
        match crate::semantics::lookup(
            name.text(),
            state.declarations,
            state.home as int,
            state.chain,
        ) {
            Some((origin, DeclStackItem::Class(class))) => {
                lemma_instance_is_value_or_throws(class, origin, call, state, answers, fuel);
            },
            _ => {},
        }
    }
}

proof fn lemma_method_call_gives_value_or_throws<'a>(
    target: Value,
    name: &'a Identifier,
    call: &'a FunctionCall,
    state: State<'a>,
    answers: Seq<HostAnswer<TValue>>,
    fuel: nat,
)
    ensures
        is_value_or_throw(crate::semantics::call_member(target, name, call, state, answers, fuel).1),
    decreases fuel, 0nat,
{
    if fuel > 0 {
        lemma_arguments_give_values_or_throw(
            &call.arguments,
            0,
            Seq::empty(),
            state,
            answers,
            (fuel - 1) as nat,
        );
    }
}

proof fn lemma_instance_is_value_or_throws<'a>(
    class: &'a Class,
    origin: crate::semantics::Origin<'a>,
    call: &'a FunctionCall,
    state: State<'a>,
    answers: Seq<HostAnswer<TValue>>,
    fuel: nat,
)
    ensures
        is_value_or_throw(
            crate::semantics::instantiate(class, origin, call, state, answers, fuel).1,
        ),
    decreases fuel, 0nat,
{
    if fuel > 0 {
        lemma_arguments_give_values_or_throw(
            &call.arguments,
            0,
            Seq::empty(),
            state,
            answers,
            (fuel - 1) as nat,
        );
    }
}

proof fn lemma_literal_gives_value_or_throws<'a>(
    literal: &'a Literal,
    state: State<'a>,
    answers: Seq<HostAnswer<TValue>>,
    fuel: nat,
)
    ensures
        is_value_or_throw(evaluate_literal(literal, state, answers, fuel).1),
    decreases fuel, 0nat,
{
    if fuel > 0 {
        let fuel = (fuel - 1) as nat;
        match literal {
            Literal::Array(items) => {
                lemma_all_give_values_or_throw(items, 0, Seq::empty(), state, answers, fuel);
            },
            Literal::Dictionary(entries) => {
                lemma_entries_give_values_or_throw(entries, 0, Seq::empty(), state, answers, fuel);
            },
            _ => {},
        }
    }
}

proof fn lemma_all_give_values_or_throw<'a>(
    expressions: &'a Vec<Expression>,
    from: int,
    values: Seq<Value>,
    state: State<'a>,
    answers: Seq<HostAnswer<TValue>>,
    fuel: nat,
)
    ensures
        evaluate_all(expressions, from, values, state, answers, fuel).1 matches Err(stopped)
            ==> is_value_or_throw(stopped),
    decreases fuel, expressions@.len() - from,
{
    if 0 <= from < expressions@.len() && fuel > 0 {
        law_expression_gives_value_or_throws(
            &expressions@[from],
            state,
            answers,
            (fuel - 1) as nat,
        );
        let (after, result) = evaluate(&expressions@[from], state, answers, (fuel - 1) as nat);
        match crate::completion::value_of(result) {
            Some(found) => {
                lemma_all_give_values_or_throw(
                    expressions,
                    from + 1,
                    values.push(found),
                    after,
                    answers,
                    fuel,
                );
            },
            None => {},
        }
    }
}

proof fn lemma_entries_give_values_or_throw<'a>(
    entries: &'a Vec<(String, Expression)>,
    from: int,
    found: Seq<(Seq<char>, Value)>,
    state: State<'a>,
    answers: Seq<HostAnswer<TValue>>,
    fuel: nat,
)
    ensures
        evaluate_entries(entries, from, found, state, answers, fuel).1 matches Err(stopped)
            ==> is_value_or_throw(stopped),
    decreases fuel, entries@.len() - from,
{
    if 0 <= from < entries@.len() && fuel > 0 {
        law_expression_gives_value_or_throws(&entries@[from].1, state, answers, (fuel - 1) as nat);
        let (after, result) = evaluate(&entries@[from].1, state, answers, (fuel - 1) as nat);
        match crate::completion::value_of(result) {
            Some(item) => {
                lemma_entries_give_values_or_throw(
                    entries,
                    from + 1,
                    crate::semantics::with_entry(found, entries@[from].0@, item),
                    after,
                    answers,
                    fuel,
                );
            },
            None => {},
        }
    }
}

proof fn lemma_arguments_give_values_or_throw<'a>(
    arguments: &'a Vec<FunctionCallArgument>,
    from: int,
    values: Seq<Value>,
    state: State<'a>,
    answers: Seq<HostAnswer<TValue>>,
    fuel: nat,
)
    ensures
        evaluate_arguments(arguments, from, values, state, answers, fuel).1 matches Err(stopped)
            ==> is_value_or_throw(stopped),
    decreases fuel, arguments@.len() - from,
{
    if 0 <= from < arguments@.len() && fuel > 0 {
        law_expression_gives_value_or_throws(
            &arguments@[from].expression,
            state,
            answers,
            (fuel - 1) as nat,
        );
        let (after, result) = evaluate(
            &arguments@[from].expression,
            state,
            answers,
            (fuel - 1) as nat,
        );
        match crate::completion::value_of(result) {
            Some(found) => {
                lemma_arguments_give_values_or_throw(
                    arguments,
                    from + 1,
                    values.push(found),
                    after,
                    answers,
                    fuel,
                );
            },
            None => {},
        }
    }
}

/// No `Break` and no `Continue` leaves a `while` loop.
pub proof fn law_while_loop_keeps_jumps<'a>(
    while_loop: &'a WhileLoop,
    state: State<'a>,
    answers: Seq<HostAnswer<TValue>>,
    fuel: nat,
)
    ensures
        !is_jump(run_while(while_loop, state, answers, fuel).1),
    decreases fuel,
{
    if fuel > 0 {
        let fuel = (fuel - 1) as nat;
        let (checked, guard) = crate::semantics::evaluate(
            &while_loop.expression,
            state,
            answers,
            fuel,
        );
        law_expression_gives_value_or_throws(&while_loop.expression, state, answers, fuel);
        match crate::completion::value_of(guard) {
            Some(Value::Boolean(true)) => {
                let (after, outcome) = run(&*while_loop.do_while, checked, answers, fuel);
                match outcome {
                    Ok(Completion::Normal(_)) | Ok(Completion::Continue) => {
                        law_while_loop_keeps_jumps(while_loop, after, answers, fuel);
                    },
                    _ => {},
                }
            },
            _ => {},
        }
    }
}

/// No `Break` and no `Continue` leaves a `do` loop.
pub proof fn law_do_loop_keeps_jumps<'a>(
    while_loop: &'a WhileLoop,
    state: State<'a>,
    answers: Seq<HostAnswer<TValue>>,
    fuel: nat,
)
    ensures
        !is_jump(run_do_while(while_loop, state, answers, fuel).1),
    decreases fuel,
{
    if fuel > 0 {
        let fuel = (fuel - 1) as nat;
        let (after, outcome) = run(&*while_loop.do_while, state, answers, fuel);
        match outcome {
            Ok(Completion::Normal(_)) | Ok(Completion::Continue) => {
                let (checked, guard) = crate::semantics::evaluate(
                    &while_loop.expression,
                    after,
                    answers,
                    fuel,
                );
                law_expression_gives_value_or_throws(&while_loop.expression, after, answers, fuel);
                match crate::completion::value_of(guard) {
                    Some(Value::Boolean(true)) => {
                        law_do_loop_keeps_jumps(while_loop, checked, answers, fuel);
                    },
                    _ => {},
                }
            },
            _ => {},
        }
    }
}

/// A `Return` in the body of a `for` loop ends the loop at once, with the rounds that are
/// left unrun, and leaves it as the same `Return`.
pub proof fn law_return_ends_for_loop<'a>(
    for_loop: &'a ForLoop,
    items: Seq<Value>,
    from: int,
    state: State<'a>,
    answers: Seq<HostAnswer<TValue>>,
    fuel: nat,
    result: Option<Value>,
)
    requires
        0 <= from < items.len(),
        fuel > 0,
        round_state(for_loop, items[from], state) is Ok,
        run(
            &*for_loop.do_for_each,
            round_state(for_loop, items[from], state)->Ok_0,
            answers,
            (fuel - 1) as nat,
        ).1 == Ok::<Completion<Value>, crate::completion::Interrupt<'a, Value>>(
            Completion::Return(result),
        ),
    ensures
        run_for(for_loop, items, from, state, answers, fuel) == (
            run(
                &*for_loop.do_for_each,
                round_state(for_loop, items[from], state)->Ok_0,
                answers,
                (fuel - 1) as nat,
            ).0.leave(),
            Ok::<Completion<Value>, crate::completion::Interrupt<'a, Value>>(
                Completion::Return(result),
            ),
        ),
{
}

/// A `Return` in the body of a `while` loop ends the loop at once and leaves it as the same
/// `Return`.
pub proof fn law_return_ends_while_loop<'a>(
    while_loop: &'a WhileLoop,
    state: State<'a>,
    answers: Seq<HostAnswer<TValue>>,
    fuel: nat,
    result: Option<Value>,
)
    requires
        fuel > 0,
        crate::completion::value_of(
            crate::semantics::evaluate(&while_loop.expression, state, answers, (fuel - 1) as nat).1,
        ) == Some(Value::Boolean(true)),
        run(
            &*while_loop.do_while,
            crate::semantics::evaluate(&while_loop.expression, state, answers, (fuel - 1) as nat).0,
            answers,
            (fuel - 1) as nat,
        ).1 == Ok::<Completion<Value>, crate::completion::Interrupt<'a, Value>>(
            Completion::Return(result),
        ),
    ensures
        run_while(while_loop, state, answers, fuel) == run(
            &*while_loop.do_while,
            crate::semantics::evaluate(&while_loop.expression, state, answers, (fuel - 1) as nat).0,
            answers,
            (fuel - 1) as nat,
        ),
{
}

/// A `Return` that leaves the body of a function ends the call: the call has the returned
/// value, or null where none was given, and nothing of the `Return` is left.
pub proof fn law_return_ends_call<'a>(body: Flow<'a, Value>, result: Option<Value>)
    requires
        body == Ok::<Completion<Value>, crate::completion::Interrupt<'a, Value>>(
            Completion::Return(result),
        ),
    ensures
        call_result(body) == value(
            match result {
                Some(found) => found,
                None => Value::Null,
            },
        ),
{
}

/// A value that is thrown in the first branch of a handler is caught there: the handler
/// ends the way its second branch ends, which runs in a scope of its own with the value
/// bound to the name that the handler gives. In particular a value that the second branch
/// throws leaves the handler uncaught, and where the second branch ends normally nothing is
/// thrown any more.
pub proof fn law_handler_catches<'a>(
    statement: &'a Statement,
    state: State<'a>,
    answers: Seq<HostAnswer<TValue>>,
    fuel: nat,
    caught: Value,
)
    requires
        fuel > 0,
        statement is TryCatch,
        run(&*statement->TryCatch_0.do_try, state, answers, (fuel - 1) as nat).1 == Ok::<
            Completion<Value>,
            crate::completion::Interrupt<'a, Value>,
        >(Completion::Throw(caught)),
    ensures
        run(statement, state, answers, fuel) == ({
            let handler = &statement->TryCatch_0;
            let thrown = run(&*handler.do_try, state, answers, (fuel - 1) as nat).0;
            let handled = run(
                &*handler.do_catch,
                thrown.enter().bind(handler.error.text(), caught),
                answers,
                (fuel - 1) as nat,
            );
            (handled.0.leave(), handled.1)
        }),
{
}

/// Whatever else ends the first branch of a handler passes through the handler untouched,
/// and the second branch does not run.
pub proof fn law_handler_passes_the_rest<'a>(
    statement: &'a Statement,
    state: State<'a>,
    answers: Seq<HostAnswer<TValue>>,
    fuel: nat,
)
    requires
        fuel > 0,
        statement is TryCatch,
        !(run(&*statement->TryCatch_0.do_try, state, answers, (fuel - 1) as nat).1 matches Ok(
            Completion::Throw(_),
        )),
    ensures
        run(statement, state, answers, fuel) == run(
            &*statement->TryCatch_0.do_try,
            state,
            answers,
            (fuel - 1) as nat,
        ),
{
}

/// Once the declaration of the last variable of a list has run, the variable is known under
/// its name, with the value of its initializer.
pub proof fn law_variable_is_visible_after_its_declaration<'a>(
    variables: &'a Vec<Variable>,
    state: State<'a>,
    answers: Seq<HostAnswer<TValue>>,
    fuel: nat,
)
    requires
        variables@.len() > 0,
        fuel > 0,
        variables@.last().expression is Some,
        crate::completion::value_of(
            evaluate(&variables@.last().expression->Some_0, state, answers, (fuel - 1) as nat).1,
        ) is Some,
        evaluate(
            &variables@.last().expression->Some_0,
            state,
            answers,
            (fuel - 1) as nat,
        ).0.depth() > 0,
        !evaluate(
            &variables@.last().expression->Some_0,
            state,
            answers,
            (fuel - 1) as nat,
        ).0.binds_here(variables@.last().identifier.text()),
    ensures
        crate::semantics::declare_variables(
            variables,
            variables@.len() - 1,
            state,
            answers,
            fuel,
        ).1 == done::<'a>(),
        crate::semantics::declare_variables(
            variables,
            variables@.len() - 1,
            state,
            answers,
            fuel,
        ).0.variable(variables@.last().identifier.text()) == crate::completion::value_of(
            evaluate(&variables@.last().expression->Some_0, state, answers, (fuel - 1) as nat).1,
        ),
{
    let last = variables@.len() - 1;
    let (after, initial) = evaluate(
        &variables@.last().expression->Some_0,
        state,
        answers,
        (fuel - 1) as nat,
    );
    let found = crate::completion::value_of(initial)->Some_0;
    let name = variables@.last().identifier.text();
    law_declared_variable_is_visible(after, name, found);
    assert(crate::semantics::declare_variables(
        variables,
        last + 1,
        after.bind(name, found),
        answers,
        fuel,
    ) == (after.bind(name, found), done::<'a>()));
}

/// What is open to all is open to every code.
pub proof fn law_public_is_open<'a>(owner: ClassRef<'a>, context: Seq<ClassRef<'a>>)
    ensures
        allowed(Visibility::Public, owner, context),
{
}

/// Code outside of any class has access to nothing but what is open to all.
pub proof fn law_outside_sees_public_only<'a>(visibility: Visibility, owner: ClassRef<'a>)
    ensures
        allowed(visibility, owner, Seq::empty()) <==> visibility == Visibility::Public,
{
}

/// What is open to its class alone is open to the code of that class and to no other.
pub proof fn law_private_is_open_to_its_class_alone<'a>(
    owner: ClassRef<'a>,
    context: Seq<ClassRef<'a>>,
)
    ensures
        allowed(Visibility::Private, owner, context) <==> context.len() > 0 && same_class(
            context[0],
            owner,
        ),
{
}

/// What is open to a class and its descendants is open to the code of just those classes
/// that have the class among themselves and their bases.
pub proof fn law_protected_is_open_to_descendants<'a>(
    owner: ClassRef<'a>,
    context: Seq<ClassRef<'a>>,
)
    ensures
        allowed(Visibility::Protected, owner, context) <==> exists|k: int|
            0 <= k < context.len() && same_class(#[trigger] context[k], owner),
{
    lemma_descends(context, owner, 0);
}

proof fn lemma_descends<'a>(context: Seq<ClassRef<'a>>, owner: ClassRef<'a>, from: int)
    requires
        0 <= from,
    ensures
        descends(context, owner, from) <==> exists|k: int|
            from <= k < context.len() && same_class(#[trigger] context[k], owner),
    decreases context.len() - from,
{
    if from < context.len() {
        lemma_descends(context, owner, from + 1);
        if same_class(context[from], owner) {
            assert(from <= from < context.len() && same_class(context[from], owner));
        }
    }
}

/// A field that is not open to all cannot be read from outside of any class: the attempt
/// throws `AccessViolation`.
pub proof fn law_guarded_field_is_closed_to_outside<'a>(
    handle: nat,
    name: Seq<char>,
    state: State<'a>,
)
    requires
        handle < state.heap.len(),
        state.context.len() == 0,
        lineage_field(state.heap[handle as int].lineage, name, 0) matches Some((_, visibility))
            && visibility != Visibility::Public,
    ensures
        crate::semantics::field_of(handle, name, state) == Err::<Value, crate::error::Failure>(
            crate::error::Failure::AccessViolation,
        ),
{
}

/// A `Break` that stands in a block in the body of a `for` loop ends that loop and nothing
/// else: where the body of the loop is a block that ends with a `Break`, the loop ends
/// normally and no further round runs.
pub proof fn law_break_in_nested_block_ends_for_loop<'a>(
    for_loop: &'a ForLoop,
    items: Seq<Value>,
    from: int,
    state: State<'a>,
    answers: Seq<HostAnswer<TValue>>,
    fuel: nat,
)
    requires
        0 <= from < items.len(),
        fuel > 1,
        round_state(for_loop, items[from], state) is Ok,
        *for_loop.do_for_each is Block,
        run_block(
            &(*for_loop.do_for_each)->Block_0,
            round_state(for_loop, items[from], state)->Ok_0,
            answers,
            (fuel - 2) as nat,
        ).1 == Ok::<Completion<Value>, crate::completion::Interrupt<'a, Value>>(Completion::Break),
    ensures
        run_for(for_loop, items, from, state, answers, fuel).1 == done::<'a>(),
{
    let inner = round_state(for_loop, items[from], state)->Ok_0;
    assert(run(&*for_loop.do_for_each, inner, answers, (fuel - 1) as nat) == run_block(
        &(*for_loop.do_for_each)->Block_0,
        inner,
        answers,
        (fuel - 2) as nat,
    ));
}

/// A `Return` that ends the body of a function ends the call, whatever of the body was left
/// to run: the call has the returned value, or null where none was given.
pub proof fn law_return_in_body_ends_call<'a>(
    function: &'a Function,
    origin: crate::semantics::Origin<'a>,
    receiver: Option<nat>,
    context: Seq<ClassRef<'a>>,
    slots: Seq<Option<Value>>,
    state: State<'a>,
    answers: Seq<HostAnswer<TValue>>,
    fuel: nat,
    result: Option<Value>,
)
    requires
        fuel > 0,
        crate::semantics::bind_parameters(
            &function.parameters,
            slots,
            0,
            crate::semantics::call_state(
                state,
                origin.depth,
                origin.home,
                origin.chain,
                receiver,
                context,
            ),
            answers,
            (fuel - 1) as nat,
        ).1 matches Ok(Completion::Normal(_)),
        crate::semantics::run_body(
            &function.body,
            crate::semantics::bind_parameters(
                &function.parameters,
                slots,
                0,
                crate::semantics::call_state(
                state,
                origin.depth,
                origin.home,
                origin.chain,
                receiver,
                context,
            ),
                answers,
                (fuel - 1) as nat,
            ).0,
            answers,
            (fuel - 1) as nat,
        ).1 == Ok::<Completion<Value>, crate::completion::Interrupt<'a, Value>>(
            Completion::Return(result),
        ),
    ensures
        crate::semantics::call_function(
            function,
            origin,
            receiver,
            context,
            slots,
            state,
            answers,
            fuel,
        ).1 == value::<'a>(
            match result {
                Some(found) => found,
                None => Value::Null,
            },
        ),
{
}

} // verus!
