use interpreter::ast::{
    Assignment, AssignmentOperator, BinaryOperation, BinaryOperator, Block, BlockItem, Class,
    ClassItem, Condition, Constructor, Declaration, Directive, Expression, ForLoop,
    ForLoopVariable, Function, FunctionCall, FunctionCallArgument, Group, Identifier, ItemAccess,
    LeftHandSide, Literal, MemberAccess, Name, Namespace, Parameter, Statement, TryCatch,
    UnaryOperation, UnaryOperator, UseDirective, Variable, WhileLoop,
};
use interpreter::completion::{HostAnswer, HostRequest, Interrupt};
use interpreter::engine::Engine;
use interpreter::interpretable::Interpretable;
use interpreter::execute;
use interpreter::run;
use interpreter::semantics::Ending;
use interpreter::value::TValue;

fn id(text: &str) -> Identifier {
    Identifier(text.to_string())
}

fn path(parts: &[&str]) -> Name {
    Name(parts.iter().map(|part| id(part)).collect())
}

fn var(text: &str) -> Expression {
    Expression::Name(path(&[text]))
}

fn dotted(parts: &[&str]) -> Expression {
    Expression::Name(path(parts))
}

fn num(n: i32) -> Expression {
    Expression::Literal(Literal::Integer(n))
}

fn float(x: f64) -> Expression {
    Expression::Literal(Literal::Real(x.to_bits()))
}

fn text(s: &str) -> Expression {
    Expression::Literal(Literal::String(s.to_string()))
}

fn boolean(b: bool) -> Expression {
    Expression::Literal(Literal::Boolean(b))
}

fn array(items: Vec<Expression>) -> Expression {
    Expression::Literal(Literal::Array(items))
}

fn dictionary(entries: Vec<(&str, Expression)>) -> Expression {
    Expression::Literal(Literal::Dictionary(
        entries.into_iter().map(|(key, value)| (key.to_string(), value)).collect(),
    ))
}

fn binary(left: Expression, operator: BinaryOperator, right: Expression) -> Expression {
    Expression::BinaryOperation(BinaryOperation {
        left: Box::new(left),
        right: Box::new(right),
        operator,
    })
}

fn unary(operator: UnaryOperator, expression: Expression) -> Expression {
    Expression::UnaryOperation(UnaryOperation { expression: Box::new(expression), operator })
}

fn item(set: Expression, index: Expression) -> Expression {
    Expression::ItemAccess(ItemAccess { set: Box::new(set), index: Box::new(index) })
}

fn member(expression: Expression, name: &str) -> Expression {
    Expression::MemberAccess(MemberAccess { expression: Box::new(expression), identifier: id(name) })
}

fn positional(expression: Expression) -> FunctionCallArgument {
    FunctionCallArgument { identifier: None, expression }
}

fn named(name: &str, expression: Expression) -> FunctionCallArgument {
    FunctionCallArgument { identifier: Some(id(name)), expression }
}

fn call_with(callee: Expression, arguments: Vec<FunctionCallArgument>) -> Expression {
    Expression::FunctionCall(FunctionCall { expression: Box::new(callee), arguments })
}

fn call(name: &str, arguments: Vec<Expression>) -> Expression {
    call_with(var(name), arguments.into_iter().map(positional).collect())
}

fn method(target: Expression, name: &str, arguments: Vec<Expression>) -> Expression {
    call_with(member(target, name), arguments.into_iter().map(positional).collect())
}

fn evaluate(expression: Expression) -> BlockItem {
    BlockItem::Statement(Statement::Expression(expression))
}

fn print(expression: Expression) -> BlockItem {
    evaluate(call("print", vec![expression]))
}

fn declare(name: &str, expression: Option<Expression>) -> BlockItem {
    BlockItem::Declaration(Declaration::Variable(vec![Variable { identifier: id(name), expression }]))
}

fn set(name: &str, expression: Expression) -> BlockItem {
    BlockItem::Statement(Statement::Assignment(Assignment {
        left_hand_side: LeftHandSide::Name(path(&[name])),
        operation: AssignmentOperator::Equals,
        expression,
    }))
}

fn update(name: &str, operation: AssignmentOperator, expression: Expression) -> BlockItem {
    BlockItem::Statement(Statement::Assignment(Assignment {
        left_hand_side: LeftHandSide::Name(path(&[name])),
        operation,
        expression,
    }))
}

fn set_item(set: Expression, index: Expression, expression: Expression) -> BlockItem {
    BlockItem::Statement(Statement::Assignment(Assignment {
        left_hand_side: LeftHandSide::Item(ItemAccess { set: Box::new(set), index: Box::new(index) }),
        operation: AssignmentOperator::Equals,
        expression,
    }))
}

fn set_member(target: Expression, name: &str, expression: Expression) -> BlockItem {
    BlockItem::Statement(Statement::Assignment(Assignment {
        left_hand_side: LeftHandSide::Member(MemberAccess {
            expression: Box::new(target),
            identifier: id(name),
        }),
        operation: AssignmentOperator::Equals,
        expression,
    }))
}

fn block(items: Vec<BlockItem>) -> Statement {
    Statement::Block(Block(items))
}

fn nested(items: Vec<BlockItem>) -> BlockItem {
    BlockItem::Statement(block(items))
}

fn when(guard: Expression, then: Statement, otherwise: Option<Statement>) -> BlockItem {
    BlockItem::Statement(Statement::Condition(Condition {
        expression: guard,
        do_then: Box::new(then),
        do_else: otherwise.map(Box::new),
    }))
}

fn for_each(variable: &str, source: Expression, body: Vec<BlockItem>) -> BlockItem {
    BlockItem::Statement(Statement::ForLoop(ForLoop {
        loop_var: Some(ForLoopVariable::Identifier(id(variable))),
        expression: source,
        do_for_each: Box::new(block(body)),
    }))
}

fn while_do(guard: Expression, body: Vec<BlockItem>) -> BlockItem {
    BlockItem::Statement(Statement::WhileDoLoop(WhileLoop {
        expression: guard,
        do_while: Box::new(block(body)),
    }))
}

fn do_while(guard: Expression, body: Vec<BlockItem>) -> BlockItem {
    BlockItem::Statement(Statement::DoWhileLoop(WhileLoop {
        expression: guard,
        do_while: Box::new(block(body)),
    }))
}

fn attempt(body: Vec<BlockItem>, error: &str, handler: Vec<BlockItem>) -> BlockItem {
    BlockItem::Statement(Statement::TryCatch(TryCatch {
        do_try: Box::new(block(body)),
        error: id(error),
        do_catch: Box::new(block(handler)),
    }))
}

fn throw(expression: Expression) -> BlockItem {
    BlockItem::Statement(Statement::Throw(expression))
}

fn give(expression: Expression) -> BlockItem {
    BlockItem::Statement(Statement::Return(Some(expression)))
}

fn parameter(name: &str, default: Option<Expression>) -> Parameter {
    Parameter { identifier: id(name), expression: default }
}

fn function_of(name: &str, parameters: Vec<Parameter>, body: Vec<BlockItem>) -> Function {
    Function { identifier: id(name), parameters, body }
}

fn function(name: &str, parameters: Vec<&str>, body: Vec<BlockItem>) -> BlockItem {
    BlockItem::Declaration(Declaration::Function(function_of(
        name,
        parameters.into_iter().map(|p| parameter(p, None)).collect(),
        body,
    )))
}

fn field(name: &str, expression: Option<Expression>) -> ClassItem {
    ClassItem::Declaration(Declaration::Variable(vec![Variable { identifier: id(name), expression }]))
}

fn method_of(name: &str, parameters: Vec<&str>, body: Vec<BlockItem>) -> ClassItem {
    ClassItem::Declaration(Declaration::Function(function_of(
        name,
        parameters.into_iter().map(|p| parameter(p, None)).collect(),
        body,
    )))
}

fn constructor(parameters: Vec<&str>, supers: Vec<Expression>, body: Vec<BlockItem>) -> ClassItem {
    ClassItem::Constructor(Constructor {
        parameters: parameters.into_iter().map(|p| parameter(p, None)).collect(),
        super_parameters: supers,
        body,
    })
}

fn class(
    name: &str,
    extends: Option<&str>,
    public_items: Vec<ClassItem>,
    protected_items: Vec<ClassItem>,
    private_items: Vec<ClassItem>,
) -> BlockItem {
    BlockItem::Declaration(Declaration::Class(Class {
        identifier: id(name),
        extends: extends.map(|base| path(&[base])),
        public_items,
        private_items,
        protected_items,
    }))
}

fn real_value(x: f64) -> TValue {
    TValue::Real(x.to_bits())
}

fn as_float(value: &TValue) -> f64 {
    match value {
        TValue::Number(n) => *n as f64,
        TValue::Real(bits) => f64::from_bits(*bits),
        other => panic!("no number: {:?}", other),
    }
}

fn compute(operator: &BinaryOperator, left: &TValue, right: &TValue) -> TValue {
    let (l, r) = (as_float(left), as_float(right));
    real_value(match operator {
        BinaryOperator::Add => l + r,
        BinaryOperator::Sub => l - r,
        BinaryOperator::Mul => l * r,
        BinaryOperator::RDiv => l / r,
        BinaryOperator::IDiv => (l / r).trunc(),
        BinaryOperator::Mod => l % r,
        BinaryOperator::Pow => l.powf(r),
        other => panic!("no arithmetic: {:?}", other),
    })
}

/// Runs a program the way a host does: it answers each request and runs the program again.
fn drive_with(program: &Block, builtins: &[&str], fuel: u64) -> (Vec<TValue>, String, usize) {
    let mut answers: Vec<HostAnswer<TValue>> = Vec::new();
    loop {
        let offered = builtins.iter().map(|name| name.to_string()).collect();
        let (printed, ending) = execute(program, offered, &answers, fuel);
        match ending {
            Ending::Stopped(Interrupt::Host(HostRequest::RealArithmetic { operator, left, right })) => {
                answers.push(HostAnswer::Value(compute(&operator, &left, &right)));
            }
            Ending::Stopped(Interrupt::Host(HostRequest::Call { name, arguments })) => {
                let items = match arguments {
                    TValue::Array(items) => items,
                    other => panic!("no array: {:?}", other),
                };
                if name.0 == "count" {
                    answers.push(HostAnswer::Value(TValue::Number(items.len() as i32)));
                } else {
                    answers.push(HostAnswer::Failure(TValue::String("host".to_string())));
                }
            }
            Ending::Stopped(Interrupt::Host(HostRequest::Import(_))) => {
                answers.push(HostAnswer::Value(TValue::Null));
            }
            Ending::Finished(value) => return (printed, format!("Finished({:?})", value), answers.len()),
            Ending::Uncaught(value) => return (printed, format!("Uncaught({:?})", value), answers.len()),
            Ending::Stopped(Interrupt::Conflict(name)) => {
                return (printed, format!("Conflict({})", name.0), answers.len())
            }
            Ending::Stopped(Interrupt::OutsideLoop) => {
                return (printed, "OutsideLoop".to_string(), answers.len())
            }
            Ending::Stopped(Interrupt::Exhausted) => {
                return (printed, "Exhausted".to_string(), answers.len())
            }
        }
    }
}

fn drive(items: Vec<BlockItem>) -> (Vec<TValue>, String) {
    let program = Block(items);
    let (printed, ending, _) = drive_with(&program, &[], 1000);
    (printed, ending)
}

fn numbers(items: &[i32]) -> Vec<TValue> {
    items.iter().map(|n| TValue::Number(*n)).collect()
}

fn uncaught(kind: &str) -> String {
    format!("Uncaught(String({:?}))", kind)
}

const FINISHED: &str = "Finished(Null)";

#[test]
fn the_small_program_prints_its_variable() {
    assert_eq!(run(), vec![TValue::Number(69)]);
}

#[test]
fn an_inner_variable_hides_the_outer_one_until_its_block_ends() {
    let (printed, ending) = drive(vec![
        declare("x", Some(num(1))),
        nested(vec![declare("x", Some(num(2))), print(var("x"))]),
        print(var("x")),
    ]);
    assert_eq!(printed, numbers(&[2, 1]));
    assert_eq!(ending, FINISHED);
}

#[test]
fn a_function_is_known_before_its_declaration() {
    let (printed, ending) = drive(vec![
        print(call("late", vec![num(4)])),
        function("late", vec!["n"], vec![give(binary(var("n"), BinaryOperator::Mul, num(2)))]),
    ]);
    assert_eq!(printed, numbers(&[8]));
    assert_eq!(ending, FINISHED);
}

#[test]
fn functions_of_one_block_know_each_other() {
    let is_even = function(
        "even",
        vec!["n"],
        vec![
            when(binary(var("n"), BinaryOperator::Eq, num(0)), block(vec![give(boolean(true))]), None),
            give(call("odd", vec![binary(var("n"), BinaryOperator::Sub, num(1))])),
        ],
    );
    let is_odd = function(
        "odd",
        vec!["n"],
        vec![
            when(binary(var("n"), BinaryOperator::Eq, num(0)), block(vec![give(boolean(false))]), None),
            give(call("even", vec![binary(var("n"), BinaryOperator::Sub, num(1))])),
        ],
    );
    let (printed, _) = drive(vec![is_even, print(call("even", vec![num(10)])), is_odd, print(call("odd", vec![num(4)]))]);
    assert_eq!(printed, vec![TValue::Boolean(true), TValue::Boolean(false)]);
}

#[test]
fn a_variable_is_unknown_before_its_declaration() {
    let (printed, ending) = drive(vec![print(var("x")), declare("x", Some(num(1)))]);
    assert_eq!(printed, vec![]);
    assert_eq!(ending, uncaught("UndefinedReference"));
}

#[test]
fn a_second_declaration_in_one_scope_conflicts_before_anything_runs() {
    let (printed, ending) = drive(vec![
        print(num(1)),
        function("f", vec![], vec![]),
        class("f", None, vec![], vec![], vec![]),
    ]);
    assert_eq!(printed, vec![]);
    assert_eq!(ending, "Conflict(f)");
    let (printed, ending) = drive(vec![
        declare("x", None),
        print(num(1)),
        declare("x", Some(num(2))),
        print(num(2)),
    ]);
    assert_eq!(printed, numbers(&[1]));
    assert_eq!(ending, "Conflict(x)");
}

#[test]
fn a_conflict_cannot_be_caught() {
    let (printed, ending) = drive(vec![attempt(
        vec![declare("x", None), declare("x", None)],
        "e",
        vec![print(var("e"))],
    )]);
    assert_eq!(printed, vec![]);
    assert_eq!(ending, "Conflict(x)");
}

#[test]
fn numbers_and_reals() {
    let (printed, ending) = drive(vec![
        print(binary(num(2), BinaryOperator::Add, float(1.5))),
        print(binary(num(7), BinaryOperator::IDiv, num(2))),
        print(binary(num(7), BinaryOperator::RDiv, num(2))),
        print(binary(num(2), BinaryOperator::Pow, num(-1))),
        print(unary(UnaryOperator::Sub, float(2.5))),
    ]);
    assert_eq!(
        printed,
        vec![
            real_value(3.5),
            TValue::Number(3),
            real_value(3.5),
            real_value(0.5),
            real_value(-2.5)
        ]
    );
    assert_eq!(ending, FINISHED);
}

#[test]
fn the_host_is_asked_once_for_each_real_operation() {
    let program = Block(vec![print(binary(
        binary(num(1), BinaryOperator::Add, float(0.5)),
        BinaryOperator::Mul,
        float(2.0),
    ))]);
    let (printed, ending, asked) = drive_with(&program, &[], 1000);
    assert_eq!(printed, vec![real_value(3.0)]);
    assert_eq!(ending, FINISHED);
    assert_eq!(asked, 2);
}

#[test]
fn an_answer_that_is_no_real_is_refused() {
    let program = Block(vec![print(binary(num(1), BinaryOperator::Add, float(0.5)))]);
    let answers = vec![HostAnswer::Value(TValue::Number(1))];
    let (printed, ending) = execute(&program, vec![], &answers, 100);
    assert_eq!(printed, vec![]);
    assert!(matches!(ending, Ending::Uncaught(TValue::String(kind)) if kind == "OperationNotPossible"));
    let failed = vec![HostAnswer::Failure(TValue::Number(7))];
    let (_, ending) = execute(&program, vec![], &failed, 100);
    assert!(matches!(ending, Ending::Uncaught(TValue::Number(7))));
}

#[test]
fn a_range_is_an_array() {
    let (printed, _) = drive(vec![
        print(binary(num(1), BinaryOperator::Range, num(5))),
        print(binary(num(5), BinaryOperator::Range, num(1))),
    ]);
    assert_eq!(printed, vec![TValue::Array(numbers(&[1, 2, 3, 4, 5])), TValue::Array(vec![])]);
}

#[test]
fn break_in_a_nested_block_ends_only_its_loop() {
    let (printed, ending) = drive(vec![
        for_each(
            "outer",
            binary(num(1), BinaryOperator::Range, num(2)),
            vec![
                for_each(
                    "i",
                    binary(num(1), BinaryOperator::Range, num(5)),
                    vec![
                        nested(vec![when(
                            binary(var("i"), BinaryOperator::Eq, num(3)),
                            block(vec![BlockItem::Statement(Statement::Break)]),
                            None,
                        )]),
                        print(var("i")),
                    ],
                ),
                print(binary(var("outer"), BinaryOperator::Mul, num(100))),
            ],
        ),
        print(num(-1)),
    ]);
    assert_eq!(printed, numbers(&[1, 2, 100, 1, 2, 200, -1]));
    assert_eq!(ending, FINISHED);
}

#[test]
fn continue_ends_only_the_round() {
    let (printed, _) = drive(vec![for_each(
        "i",
        binary(num(1), BinaryOperator::Range, num(4)),
        vec![
            when(
                binary(var("i"), BinaryOperator::Eq, num(2)),
                block(vec![BlockItem::Statement(Statement::Continue)]),
                None,
            ),
            print(var("i")),
        ],
    )]);
    assert_eq!(printed, numbers(&[1, 3, 4]));
}

#[test]
fn return_in_a_loop_ends_the_whole_call() {
    let find = function(
        "find",
        vec![],
        vec![
            for_each(
                "i",
                binary(num(1), BinaryOperator::Range, num(5)),
                vec![
                    when(
                        binary(var("i"), BinaryOperator::Eq, num(3)),
                        block(vec![give(binary(var("i"), BinaryOperator::Mul, num(10)))]),
                        None,
                    ),
                    print(var("i")),
                ],
            ),
            print(num(-1)),
            give(num(0)),
        ],
    );
    let (printed, ending) = drive(vec![find, print(call("find", vec![]))]);
    assert_eq!(printed, numbers(&[1, 2, 30]));
    assert_eq!(ending, FINISHED);
}

#[test]
fn a_break_outside_of_a_loop_ends_the_interpretation() {
    let (_, ending) = drive(vec![BlockItem::Statement(Statement::Break)]);
    assert_eq!(ending, "OutsideLoop");
    let (_, ending) = drive(vec![
        function("f", vec![], vec![BlockItem::Statement(Statement::Continue)]),
        for_each("i", array(vec![num(1)]), vec![evaluate(call("f", vec![]))]),
    ]);
    assert_eq!(ending, "OutsideLoop");
}

#[test]
fn while_loops() {
    let (printed, ending) = drive(vec![
        declare("n", Some(num(0))),
        while_do(
            binary(var("n"), BinaryOperator::Lt, num(3)),
            vec![update("n", AssignmentOperator::Add, num(1)), print(var("n"))],
        ),
        do_while(boolean(false), vec![print(num(9))]),
        while_do(boolean(true), vec![BlockItem::Statement(Statement::Break)]),
    ]);
    assert_eq!(printed, numbers(&[1, 2, 3, 9]));
    assert_eq!(ending, FINISHED);
}

#[test]
fn a_loop_without_end_uses_up_the_budget() {
    let program = Block(vec![while_do(boolean(true), vec![])]);
    let (_, ending, _) = drive_with(&program, &[], 200);
    assert_eq!(ending, "Exhausted");
    let recursion = Block(vec![
        function("f", vec![], vec![give(call("f", vec![]))]),
        evaluate(call("f", vec![])),
    ]);
    let (_, ending, _) = drive_with(&recursion, &[], 200);
    assert_eq!(ending, "Exhausted");
}

#[test]
fn a_guard_has_to_be_a_boolean() {
    let (_, ending) = drive(vec![when(num(1), block(vec![]), None)]);
    assert_eq!(ending, uncaught("TypeMismatch"));
    let (_, ending) = drive(vec![while_do(text("yes"), vec![])]);
    assert_eq!(ending, uncaught("TypeMismatch"));
    let (_, ending) = drive(vec![for_each("i", num(3), vec![])]);
    assert_eq!(ending, uncaught("TypeMismatch"));
    let (printed, _) = drive(vec![when(
        boolean(false),
        block(vec![print(num(1))]),
        Some(block(vec![print(num(2))])),
    )]);
    assert_eq!(printed, numbers(&[2]));
}

#[test]
fn a_thrown_value_is_caught_by_the_nearest_handler() {
    let (printed, ending) = drive(vec![
        attempt(
            vec![attempt(vec![throw(num(1)), print(num(0))], "inner", vec![print(var("inner"))])],
            "outer",
            vec![print(num(-1))],
        ),
        print(num(2)),
    ]);
    assert_eq!(printed, numbers(&[1, 2]));
    assert_eq!(ending, FINISHED);
}

#[test]
fn a_value_thrown_by_a_handler_is_not_caught_by_it() {
    let (printed, ending) =
        drive(vec![attempt(vec![throw(num(1))], "e", vec![throw(num(5))]), print(num(0))]);
    assert_eq!(printed, vec![]);
    assert_eq!(ending, "Uncaught(Number(5))");
    let (printed, ending) = drive(vec![attempt(
        vec![attempt(vec![throw(num(1))], "e", vec![throw(num(2))])],
        "e",
        vec![print(var("e"))],
    )]);
    assert_eq!(printed, numbers(&[2]));
    assert_eq!(ending, FINISHED);
}

#[test]
fn failures_at_run_time_can_be_caught() {
    let (printed, ending) = drive(vec![
        attempt(vec![print(var("nothing"))], "e", vec![print(var("e"))]),
        attempt(
            vec![print(binary(num(1), BinaryOperator::IDiv, num(0)))],
            "e",
            vec![print(var("e"))],
        ),
        attempt(
            vec![print(item(array(vec![num(1)]), num(1)))],
            "e",
            vec![print(var("e"))],
        ),
        attempt(
            vec![function("f", vec![], vec![throw(text("deep"))]), evaluate(call("f", vec![]))],
            "e",
            vec![print(var("e"))],
        ),
    ]);
    assert_eq!(
        printed,
        vec![
            TValue::String("UndefinedReference".to_string()),
            TValue::String("OperationNotPossible".to_string()),
            TValue::String("UndefinedReference".to_string()),
            TValue::String("deep".to_string()),
        ]
    );
    assert_eq!(ending, FINISHED);
}

#[test]
fn the_name_of_a_handler_is_gone_after_it() {
    let (_, ending) = drive(vec![attempt(vec![throw(num(1))], "e", vec![]), print(var("e"))]);
    assert_eq!(ending, uncaught("UndefinedReference"));
}

#[test]
fn and_and_or_leave_the_right_side_alone_where_the_left_decides() {
    let noisy = function("noisy", vec!["b"], vec![print(num(1)), give(var("b"))]);
    let (printed, _) = drive(vec![
        noisy,
        print(binary(boolean(false), BinaryOperator::And, call("noisy", vec![boolean(true)]))),
        print(binary(boolean(true), BinaryOperator::Or, call("noisy", vec![boolean(false)]))),
        print(binary(boolean(true), BinaryOperator::And, call("noisy", vec![boolean(false)]))),
        print(binary(boolean(true), BinaryOperator::Xor, call("noisy", vec![boolean(true)]))),
    ]);
    assert_eq!(
        printed,
        vec![
            TValue::Boolean(false),
            TValue::Boolean(true),
            TValue::Number(1),
            TValue::Boolean(false),
            TValue::Number(1),
            TValue::Boolean(false),
        ]
    );
}

#[test]
fn a_function_sees_the_scope_of_its_declaration() {
    let (printed, ending) = drive(vec![
        declare("x", Some(num(1))),
        function("read", vec![], vec![give(var("x"))]),
        nested(vec![declare("x", Some(num(2))), print(call("read", vec![]))]),
        function("hidden", vec![], vec![give(var("y"))]),
        nested(vec![
            declare("y", Some(num(3))),
            attempt(vec![print(call("hidden", vec![]))], "e", vec![print(var("e"))]),
        ]),
    ]);
    assert_eq!(printed, vec![TValue::Number(1), TValue::String("UndefinedReference".to_string())]);
    assert_eq!(ending, FINISHED);
}

#[test]
fn a_function_can_change_a_variable_of_an_outer_scope() {
    let (printed, _) = drive(vec![
        declare("total", Some(num(0))),
        function("add", vec!["n"], vec![update("total", AssignmentOperator::Add, var("n"))]),
        nested(vec![evaluate(call("add", vec![num(2)])), evaluate(call("add", vec![num(3)]))]),
        print(var("total")),
        print(call("add", vec![num(1)])),
    ]);
    assert_eq!(printed, vec![TValue::Number(5), TValue::Null]);
}

#[test]
fn arguments_by_position_by_name_and_by_default() {
    let describe = BlockItem::Declaration(Declaration::Function(function_of(
        "describe",
        vec![
            parameter("a", None),
            parameter("b", Some(num(20))),
            parameter("c", Some(binary(var("a"), BinaryOperator::Add, var("b")))),
        ],
        vec![give(array(vec![var("a"), var("b"), var("c")]))],
    )));
    let (printed, ending) = drive(vec![
        describe,
        print(call("describe", vec![num(1)])),
        print(call("describe", vec![num(1), num(2), num(3)])),
        print(call_with(var("describe"), vec![positional(num(1)), named("c", num(5))])),
        print(call_with(var("describe"), vec![positional(num(1)), named("a", num(7))])),
        attempt(
            vec![evaluate(call("describe", vec![]))],
            "e",
            vec![print(var("e"))],
        ),
        attempt(
            vec![evaluate(call("describe", vec![num(1), num(2), num(3), num(4)]))],
            "e",
            vec![print(var("e"))],
        ),
        attempt(
            vec![evaluate(call_with(var("describe"), vec![named("z", num(1))]))],
            "e",
            vec![print(var("e"))],
        ),
    ]);
    assert_eq!(
        printed,
        vec![
            TValue::Array(numbers(&[1, 20, 21])),
            TValue::Array(numbers(&[1, 2, 3])),
            TValue::Array(numbers(&[1, 20, 5])),
            TValue::Array(numbers(&[7, 20, 27])),
            TValue::String("TypeMismatch".to_string()),
            TValue::String("TypeMismatch".to_string()),
            TValue::String("UndefinedReference".to_string()),
        ]
    );
    assert_eq!(ending, FINISHED);
}

#[test]
fn what_cannot_be_called() {
    let (_, ending) = drive(vec![declare("v", Some(num(1))), evaluate(call("v", vec![]))]);
    assert_eq!(ending, uncaught("TypeMismatch"));
    let (_, ending) = drive(vec![evaluate(call("unknown", vec![]))]);
    assert_eq!(ending, uncaught("UndefinedReference"));
    let (_, ending) = drive(vec![evaluate(call_with(num(1), vec![]))]);
    assert_eq!(ending, uncaught("TypeMismatch"));
    let (_, ending) = drive(vec![function("f", vec![], vec![]), print(var("f"))]);
    assert_eq!(ending, uncaught("TypeMismatch"));
    let (_, ending) = drive(vec![
        BlockItem::Declaration(Declaration::Namespace(Namespace { identifier: id("n"), body: vec![] })),
        evaluate(call("n", vec![])),
    ]);
    assert_eq!(ending, uncaught("TypeMismatch"));
    let (_, ending) = drive(vec![print(Expression::Literal(Literal::Lambda))]);
    assert_eq!(ending, uncaught("TypeMismatch"));
}

#[test]
fn a_program_can_declare_its_own_print() {
    let (printed, _) = drive(vec![
        function("print", vec!["x"], vec![give(var("x"))]),
        evaluate(call("print", vec![num(1)])),
    ]);
    assert_eq!(printed, vec![]);
}

#[test]
fn literals_and_access() {
    let (printed, ending) = drive(vec![
        declare("a", Some(array(vec![num(1), array(vec![num(2), num(3)])]))),
        declare("d", Some(dictionary(vec![("k", num(1)), ("l", text("v")), ("k", num(4))]))),
        print(item(item(var("a"), num(1)), num(0))),
        print(item(var("d"), text("k"))),
        print(member(var("d"), "l")),
        print(dotted(&["d", "l"])),
        print(var("d")),
        print(Expression::Group(Group::Rounded(Box::new(Expression::Literal(Literal::Null))))),
        attempt(vec![print(item(var("d"), text("m")))], "e", vec![print(var("e"))]),
        attempt(vec![print(item(var("a"), text("m")))], "e", vec![print(var("e"))]),
        attempt(vec![print(member(num(1), "m"))], "e", vec![print(var("e"))]),
        attempt(vec![print(item(var("a"), num(-1)))], "e", vec![print(var("e"))]),
    ]);
    assert_eq!(
        printed,
        vec![
            TValue::Number(2),
            TValue::Number(4),
            TValue::String("v".to_string()),
            TValue::String("v".to_string()),
            TValue::Dictionary(vec![
                ("k".to_string(), TValue::Number(4)),
                ("l".to_string(), TValue::String("v".to_string()))
            ]),
            TValue::Null,
            TValue::String("UndefinedReference".to_string()),
            TValue::String("TypeMismatch".to_string()),
            TValue::String("TypeMismatch".to_string()),
            TValue::String("UndefinedReference".to_string()),
        ]
    );
    assert_eq!(ending, FINISHED);
}

#[test]
fn assignment_to_parts_of_values() {
    let (printed, ending) = drive(vec![
        declare("a", Some(array(vec![num(1), array(vec![num(2), num(3)])]))),
        declare("b", Some(var("a"))),
        set_item(item(var("a"), num(1)), num(0), num(20)),
        set_item(var("a"), num(0), num(10)),
        print(var("a")),
        print(var("b")),
        declare("d", Some(dictionary(vec![("k", dictionary(vec![]))]))),
        set_member(var("d"), "n", num(1)),
        set_item(member(var("d"), "k"), text("deep"), num(2)),
        print(var("d")),
        attempt(vec![set_item(var("a"), num(5), num(0))], "e", vec![print(var("e"))]),
        attempt(vec![set_item(var("a"), text("x"), num(0))], "e", vec![print(var("e"))]),
        attempt(vec![set("missing", num(0))], "e", vec![print(var("e"))]),
        attempt(
            vec![set_item(member(var("d"), "missing"), text("x"), num(0))],
            "e",
            vec![print(var("e"))],
        ),
    ]);
    assert_eq!(
        printed,
        vec![
            TValue::Array(vec![TValue::Number(10), TValue::Array(numbers(&[20, 3]))]),
            TValue::Array(vec![TValue::Number(1), TValue::Array(numbers(&[2, 3]))]),
            TValue::Dictionary(vec![
                (
                    "k".to_string(),
                    TValue::Dictionary(vec![("deep".to_string(), TValue::Number(2))])
                ),
                ("n".to_string(), TValue::Number(1)),
            ]),
            TValue::String("UndefinedReference".to_string()),
            TValue::String("TypeMismatch".to_string()),
            TValue::String("UndefinedReference".to_string()),
            TValue::String("UndefinedReference".to_string()),
        ]
    );
    assert_eq!(ending, FINISHED);
}

#[test]
fn compound_assignment() {
    let (printed, ending) = drive(vec![
        declare("n", Some(num(7))),
        update("n", AssignmentOperator::Sub, num(2)),
        print(var("n")),
        update("n", AssignmentOperator::Mul, num(3)),
        print(var("n")),
        update("n", AssignmentOperator::Mod, num(4)),
        print(var("n")),
        update("n", AssignmentOperator::Exp, num(3)),
        print(var("n")),
        update("n", AssignmentOperator::Div, num(2)),
        print(var("n")),
    ]);
    assert_eq!(
        printed,
        vec![
            TValue::Number(5),
            TValue::Number(15),
            TValue::Number(3),
            TValue::Number(27),
            real_value(13.5)
        ]
    );
    assert_eq!(ending, FINISHED);
}

#[test]
fn the_loop_variable_can_be_a_variable_that_is_there() {
    let named_loop = |target: &[&str], body: Vec<BlockItem>| {
        BlockItem::Statement(Statement::ForLoop(ForLoop {
            loop_var: Some(ForLoopVariable::Name(path(target))),
            expression: array(vec![num(4), num(5)]),
            do_for_each: Box::new(block(body)),
        }))
    };
    let (printed, ending) = drive(vec![
        declare("last", None),
        named_loop(&["last"], vec![]),
        print(var("last")),
        attempt(vec![named_loop(&["unknown"], vec![])], "e", vec![print(var("e"))]),
        BlockItem::Statement(Statement::ForLoop(ForLoop {
            loop_var: None,
            expression: array(vec![num(4), num(5)]),
            do_for_each: Box::new(block(vec![print(num(0))])),
        })),
    ]);
    assert_eq!(
        printed,
        vec![
            TValue::Number(5),
            TValue::String("UndefinedReference".to_string()),
            TValue::Number(0),
            TValue::Number(0)
        ]
    );
    assert_eq!(ending, FINISHED);
}

#[test]
fn the_program_ends_with_what_it_returns() {
    let (printed, ending) = drive(vec![print(num(1)), give(num(5)), print(num(2))]);
    assert_eq!(printed, numbers(&[1]));
    assert_eq!(ending, "Finished(Number(5))");
    let (_, ending) = drive(vec![BlockItem::Statement(Statement::Return(None))]);
    assert_eq!(ending, FINISHED);
}

#[test]
fn functions_of_the_host() {
    let program = Block(vec![
        print(call("count", vec![num(1), num(2), num(3)])),
        attempt(vec![evaluate(call("fail", vec![]))], "e", vec![print(var("e"))]),
    ]);
    let (printed, ending, asked) = drive_with(&program, &["count", "fail"], 1000);
    assert_eq!(printed, vec![TValue::Number(3), TValue::String("host".to_string())]);
    assert_eq!(ending, FINISHED);
    assert_eq!(asked, 2);
    let (_, ending, _) = drive_with(&program, &[], 1000);
    assert_eq!(ending, uncaught("UndefinedReference"));
}

#[test]
fn the_request_names_the_function_and_its_arguments() {
    let program = Block(vec![evaluate(call("count", vec![num(1), text("a")]))]);
    let (_, ending) = execute(&program, vec!["count".to_string()], &vec![], 100);
    match ending {
        Ending::Stopped(Interrupt::Host(HostRequest::Call { name, arguments })) => {
            assert_eq!(name.0, "count");
            assert_eq!(
                arguments,
                TValue::Array(vec![TValue::Number(1), TValue::String("a".to_string())])
            );
        }
        other => panic!("no request: {:?}", other),
    }
    let sum = Block(vec![evaluate(binary(num(1), BinaryOperator::Add, float(2.0)))]);
    let (_, ending) = execute(&sum, vec![], &vec![], 100);
    match ending {
        Ending::Stopped(Interrupt::Host(HostRequest::RealArithmetic { operator, left, right })) => {
            assert!(matches!(operator, BinaryOperator::Add));
            assert_eq!(left, TValue::Number(1));
            assert_eq!(right, real_value(2.0));
        }
        other => panic!("no request: {:?}", other),
    }
}

#[test]
fn an_import_is_the_hosts_to_carry_out() {
    let import = || {
        BlockItem::Directive(Directive::Use(UseDirective { source: None, imports: vec![] }))
    };
    let program = Block(vec![print(num(1)), import(), print(num(2))]);
    let (printed, ending) = execute(&program, vec![], &vec![], 100);
    assert_eq!(printed, numbers(&[1]));
    assert!(matches!(ending, Ending::Stopped(Interrupt::Host(HostRequest::Import(_)))));
    let (printed, ending, asked) = drive_with(&program, &[], 100);
    assert_eq!(printed, numbers(&[1, 2]));
    assert_eq!(ending, FINISHED);
    assert_eq!(asked, 1);
    let refused = vec![HostAnswer::Failure(TValue::String("no such file".to_string()))];
    let (_, ending) = execute(&program, vec![], &refused, 100);
    assert!(matches!(ending, Ending::Uncaught(TValue::String(_))));
}

fn account_classes() -> Vec<BlockItem> {
    vec![
        class(
            "A",
            None,
            vec![
                constructor(vec![], vec![], vec![set("secret", num(42))]),
                method_of("reveal", vec![], vec![give(var("secret"))]),
                method_of("own", vec![], vec![give(var("hidden"))]),
            ],
            vec![field("secret", None)],
            vec![field("hidden", Some(num(7)))],
        ),
        class(
            "B",
            Some("A"),
            vec![
                method_of("peek", vec![], vec![give(dotted(&["this", "secret"]))]),
                method_of("pry", vec![], vec![give(var("hidden"))]),
            ],
            vec![],
            vec![],
        ),
    ]
}

#[test]
fn an_inherited_method_reads_a_protected_field() {
    let mut items = account_classes();
    items.extend(vec![
        declare("b", Some(call("B", vec![]))),
        print(method(var("b"), "reveal", vec![])),
        print(method(var("b"), "peek", vec![])),
        print(method(var("b"), "own", vec![])),
        print(member(var("b"), "secret")),
    ]);
    let (printed, ending) = drive(items);
    assert_eq!(printed, numbers(&[42, 42, 7]));
    assert_eq!(ending, uncaught("AccessViolation"));
}

#[test]
fn a_private_field_is_open_to_its_class_alone() {
    let mut items = account_classes();
    items.extend(vec![
        declare("b", Some(call("B", vec![]))),
        attempt(vec![print(method(var("b"), "pry", vec![]))], "e", vec![print(var("e"))]),
        attempt(vec![print(member(var("b"), "hidden"))], "e", vec![print(var("e"))]),
        attempt(vec![set_member(var("b"), "secret", num(1))], "e", vec![print(var("e"))]),
        attempt(vec![print(member(var("b"), "nothing"))], "e", vec![print(var("e"))]),
        attempt(vec![print(method(var("b"), "nothing", vec![]))], "e", vec![print(var("e"))]),
    ]);
    let (printed, ending) = drive(items);
    assert_eq!(
        printed,
        vec![
            TValue::String("AccessViolation".to_string()),
            TValue::String("AccessViolation".to_string()),
            TValue::String("AccessViolation".to_string()),
            TValue::String("UndefinedReference".to_string()),
            TValue::String("UndefinedReference".to_string()),
        ]
    );
    assert_eq!(ending, FINISHED);
}

#[test]
fn objects_are_shared_and_other_values_are_copied() {
    let (printed, ending) = drive(vec![
        class(
            "Counter",
            None,
            vec![
                field("n", Some(num(0))),
                method_of(
                    "bump",
                    vec![],
                    vec![update("n", AssignmentOperator::Add, num(1)), give(var("n"))],
                ),
            ],
            vec![],
            vec![],
        ),
        declare("a", Some(call("Counter", vec![]))),
        declare("b", Some(var("a"))),
        evaluate(method(var("a"), "bump", vec![])),
        evaluate(method(var("b"), "bump", vec![])),
        print(member(var("a"), "n")),
        set_member(var("b"), "n", num(10)),
        print(member(var("a"), "n")),
        print(binary(var("a"), BinaryOperator::Eq, var("b"))),
        print(binary(var("a"), BinaryOperator::Eq, call("Counter", vec![]))),
        declare("list", Some(array(vec![var("a")]))),
        set_member(item(var("list"), num(0)), "n", num(11)),
        print(member(var("a"), "n")),
        print(dotted(&["a", "n"])),
        print(call_with(dotted(&["a", "bump"]), vec![])),
    ]);
    assert_eq!(
        printed,
        vec![
            TValue::Number(2),
            TValue::Number(10),
            TValue::Boolean(true),
            TValue::Boolean(false),
            TValue::Number(11),
            TValue::Number(11),
            TValue::Number(12),
        ]
    );
    assert_eq!(ending, FINISHED);
}

#[test]
fn the_base_is_set_up_before_the_class() {
    let (printed, ending) = drive(vec![
        class(
            "Derived",
            Some("Base"),
            vec![
                constructor(
                    vec!["x", "y"],
                    vec![binary(var("x"), BinaryOperator::Add, num(1))],
                    vec![print(var("own")), print(var("base")), set("own", var("y"))],
                ),
                field("own", Some(num(-1))),
                method_of(
                    "both",
                    vec![],
                    vec![give(array(vec![var("base"), var("own"), call("twice", vec![])]))],
                ),
            ],
            vec![],
            vec![],
        ),
        class(
            "Base",
            None,
            vec![
                constructor(vec!["b"], vec![], vec![print(num(0)), set("base", var("b"))]),
                field("base", None),
                method_of(
                    "twice",
                    vec![],
                    vec![give(binary(var("base"), BinaryOperator::Mul, num(2)))],
                ),
            ],
            vec![],
            vec![],
        ),
        declare("d", Some(call("Derived", vec![num(5), num(6)]))),
        print(method(var("d"), "both", vec![])),
        attempt(vec![evaluate(call("Derived", vec![]))], "e", vec![print(var("e"))]),
        attempt(vec![evaluate(call("Base", vec![num(1), num(2)]))], "e", vec![print(var("e"))]),
    ]);
    assert_eq!(
        printed,
        vec![
            TValue::Number(0),
            TValue::Number(-1),
            TValue::Number(6),
            TValue::Array(numbers(&[6, 6, 12])),
            TValue::String("TypeMismatch".to_string()),
            TValue::String("TypeMismatch".to_string()),
        ]
    );
    assert_eq!(ending, FINISHED);
}

#[test]
fn a_constructor_that_is_not_open_cannot_be_called_from_outside() {
    let (printed, ending) = drive(vec![
        class(
            "Closed",
            None,
            vec![],
            vec![],
            vec![constructor(vec![], vec![], vec![])],
        ),
        class("Open", Some("Closed"), vec![], vec![], vec![]),
        declare("o", Some(call("Open", vec![]))),
        print(num(1)),
        declare("c", Some(call("Closed", vec![]))),
    ]);
    assert_eq!(printed, numbers(&[1]));
    assert_eq!(ending, uncaught("AccessViolation"));
}

#[test]
fn a_base_that_is_not_there() {
    let (_, ending) = drive(vec![
        class("Lost", Some("Nowhere"), vec![], vec![], vec![]),
        evaluate(call("Lost", vec![])),
    ]);
    assert_eq!(ending, uncaught("UndefinedReference"));
    let (_, ending) = drive(vec![
        function("f", vec![], vec![]),
        class("Odd", Some("f"), vec![], vec![], vec![]),
        evaluate(call("Odd", vec![])),
    ]);
    assert_eq!(ending, uncaught("TypeMismatch"));
    let program = Block(vec![
        class("Snake", Some("Tail"), vec![], vec![], vec![]),
        class("Tail", Some("Snake"), vec![], vec![], vec![]),
        evaluate(call("Snake", vec![])),
    ]);
    let (_, ending, _) = drive_with(&program, &[], 100);
    assert_eq!(ending, "Exhausted");
}

#[test]
fn a_plain_function_is_no_code_of_the_class_that_calls_it() {
    let (printed, ending) = drive(vec![
        function("outside", vec!["o"], vec![give(member(var("o"), "guarded"))]),
        class(
            "C",
            None,
            vec![
                method_of("inside", vec![], vec![give(member(var("this"), "guarded"))]),
                method_of("through", vec![], vec![give(call("outside", vec![var("this")]))]),
            ],
            vec![field("guarded", Some(num(3)))],
            vec![],
        ),
        declare("c", Some(call("C", vec![]))),
        print(method(var("c"), "inside", vec![])),
        print(method(var("c"), "through", vec![])),
    ]);
    assert_eq!(printed, numbers(&[3]));
    assert_eq!(ending, uncaught("AccessViolation"));
}

fn namespace(name: &str, body: Vec<BlockItem>) -> BlockItem {
    BlockItem::Declaration(Declaration::Namespace(Namespace { identifier: id(name), body }))
}

fn qualified_call(parts: &[&str], arguments: Vec<Expression>) -> Expression {
    call_with(dotted(parts), arguments.into_iter().map(positional).collect())
}

fn shared_function(name: &str, body: Vec<BlockItem>) -> ClassItem {
    ClassItem::StaticDeclaration(Declaration::Function(function_of(name, vec![], body)))
}

fn tools() -> BlockItem {
    namespace(
        "tools",
        vec![
            function("twice", vec!["n"], vec![give(binary(var("n"), BinaryOperator::Mul, num(2)))]),
            function("both", vec![], vec![give(qualified_call(&["tools", "twice"], vec![num(21)]))]),
            namespace(
                "deep",
                vec![
                    function("one", vec![], vec![give(num(1))]),
                    class("Box", None, vec![field("v", Some(num(5)))], vec![], vec![]),
                ],
            ),
        ],
    )
}

#[test]
fn a_qualified_name_leads_into_a_namespace() {
    let (printed, ending) = drive(vec![
        print(qualified_call(&["tools", "twice"], vec![num(4)])),
        print(qualified_call(&["tools", "deep", "one"], vec![])),
        print(qualified_call(&["tools", "both"], vec![])),
        declare("b", Some(qualified_call(&["tools", "deep", "Box"], vec![]))),
        print(member(var("b"), "v")),
        BlockItem::Declaration(Declaration::Class(Class {
            identifier: id("Big"),
            extends: Some(path(&["tools", "deep", "Box"])),
            public_items: vec![],
            private_items: vec![],
            protected_items: vec![],
        })),
        print(member(call("Big", vec![]), "v")),
        tools(),
        attempt(vec![evaluate(qualified_call(&["tools", "none"], vec![]))], "e", vec![print(var("e"))]),
        attempt(
            vec![evaluate(qualified_call(&["tools", "twice", "more"], vec![]))],
            "e",
            vec![print(var("e"))],
        ),
        attempt(vec![evaluate(qualified_call(&["tools", "deep"], vec![]))], "e", vec![print(var("e"))]),
        attempt(vec![evaluate(qualified_call(&["none", "f"], vec![]))], "e", vec![print(var("e"))]),
        attempt(vec![print(dotted(&["tools", "twice"]))], "e", vec![print(var("e"))]),
    ]);
    assert_eq!(
        printed,
        vec![
            TValue::Number(8),
            TValue::Number(1),
            TValue::Number(42),
            TValue::Number(5),
            TValue::Number(5),
            TValue::String("UndefinedReference".to_string()),
            TValue::String("TypeMismatch".to_string()),
            TValue::String("TypeMismatch".to_string()),
            TValue::String("UndefinedReference".to_string()),
            TValue::String("TypeMismatch".to_string()),
        ]
    );
    assert_eq!(ending, FINISHED);
}

#[test]
fn what_a_namespace_declares_knows_its_neighbours() {
    let (printed, ending) = drive(vec![
        function("inner", vec![], vec![give(num(-1))]),
        function("plain", vec![], vec![give(call("inner", vec![]))]),
        namespace(
            "n",
            vec![
                function("inner", vec![], vec![give(num(1))]),
                function("outer", vec![], vec![give(call("inner", vec![]))]),
                function("far", vec![], vec![give(qualified_call(&["m", "deepest"], vec![]))]),
                function("out", vec![], vec![give(call("plain", vec![]))]),
                function(
                    "own",
                    vec![],
                    vec![function("inner", vec![], vec![give(num(3))]), give(call("inner", vec![]))],
                ),
                function("make", vec![], vec![give(call("Thing", vec![]))]),
                class("Thing", None, vec![field("v", Some(num(4)))], vec![], vec![]),
                namespace(
                    "m",
                    vec![
                        function("deepest", vec![], vec![give(call("outer", vec![]))]),
                        function("inner", vec![], vec![give(num(2))]),
                        function("nearest", vec![], vec![give(call("inner", vec![]))]),
                    ],
                ),
            ],
        ),
        print(qualified_call(&["n", "outer"], vec![])),
        print(qualified_call(&["n", "far"], vec![])),
        print(qualified_call(&["n", "m", "nearest"], vec![])),
        print(qualified_call(&["n", "out"], vec![])),
        print(qualified_call(&["n", "own"], vec![])),
        print(call("inner", vec![])),
        declare("thing", Some(qualified_call(&["n", "make"], vec![]))),
        print(member(var("thing"), "v")),
        print(binary(
            member(qualified_call(&["n", "Thing"], vec![]), "v"),
            BinaryOperator::Eq,
            member(var("thing"), "v"),
        )),
        attempt(vec![evaluate(call("outer", vec![]))], "e", vec![print(var("e"))]),
    ]);
    assert_eq!(
        printed,
        vec![
            TValue::Number(1),
            TValue::Number(1),
            TValue::Number(2),
            TValue::Number(-1),
            TValue::Number(3),
            TValue::Number(-1),
            TValue::Number(4),
            TValue::Boolean(true),
            TValue::String("UndefinedReference".to_string()),
        ]
    );
    assert_eq!(ending, FINISHED);
}

#[test]
fn what_a_class_declares_for_all_its_instances() {
    let (printed, ending) = drive(vec![
        class(
            "M",
            None,
            vec![
                shared_function("make", vec![give(num(7))]),
                shared_function("through", vec![give(qualified_call(&["M", "closed"], vec![]))]),
                shared_function(
                    "open",
                    vec![give(member(call("M", vec![]), "hidden"))],
                ),
            ],
            vec![],
            vec![shared_function("closed", vec![give(num(8))]), field("hidden", Some(num(9)))],
        ),
        print(qualified_call(&["M", "make"], vec![])),
        print(qualified_call(&["M", "through"], vec![])),
        print(qualified_call(&["M", "open"], vec![])),
        attempt(vec![evaluate(qualified_call(&["M", "closed"], vec![]))], "e", vec![print(var("e"))]),
        attempt(vec![evaluate(qualified_call(&["M", "none"], vec![]))], "e", vec![print(var("e"))]),
        attempt(
            vec![evaluate(method(call("M", vec![]), "make", vec![]))],
            "e",
            vec![print(var("e"))],
        ),
    ]);
    assert_eq!(
        printed,
        vec![
            TValue::Number(7),
            TValue::Number(8),
            TValue::Number(9),
            TValue::String("AccessViolation".to_string()),
            TValue::String("UndefinedReference".to_string()),
            TValue::String("UndefinedReference".to_string()),
        ]
    );
    assert_eq!(ending, FINISHED);
}

fn shared_variable(name: &str, expression: Option<Expression>) -> ClassItem {
    ClassItem::StaticDeclaration(Declaration::Variable(vec![Variable {
        identifier: id(name),
        expression,
    }]))
}

fn set_path(target: &[&str], expression: Expression) -> BlockItem {
    BlockItem::Statement(Statement::Assignment(Assignment {
        left_hand_side: LeftHandSide::Name(path(target)),
        operation: AssignmentOperator::Equals,
        expression,
    }))
}

fn counter() -> BlockItem {
    class(
        "Counter",
        None,
        vec![
            shared_variable("count", Some(num(0))),
            shared_function(
                "bump",
                vec![update("count", AssignmentOperator::Add, num(1)), give(var("count"))],
            ),
            shared_function("peek", vec![give(var("secret"))]),
            constructor(vec![], vec![], vec![update("count", AssignmentOperator::Add, num(1))]),
            method_of("total", vec![], vec![give(var("count"))]),
        ],
        vec![shared_variable("guarded", Some(num(6)))],
        vec![shared_variable("secret", Some(num(5)))],
    )
}

#[test]
fn a_variable_for_all_instances_is_bound_once_and_shared() {
    let (printed, ending) = drive(vec![
        print(dotted(&["Counter", "count"])),
        counter(),
        print(qualified_call(&["Counter", "bump"], vec![])),
        declare("a", Some(call("Counter", vec![]))),
        declare("b", Some(call("Counter", vec![]))),
        print(dotted(&["Counter", "count"])),
        set_path(&["Counter", "count"], num(10)),
        print(method(var("a"), "total", vec![])),
        print(method(var("b"), "total", vec![])),
        print(qualified_call(&["Counter", "peek"], vec![])),
        attempt(vec![print(dotted(&["Counter", "secret"]))], "e", vec![print(var("e"))]),
        attempt(vec![print(dotted(&["Counter", "guarded"]))], "e", vec![print(var("e"))]),
        attempt(vec![print(dotted(&["Counter", "nothing"]))], "e", vec![print(var("e"))]),
        attempt(vec![set_path(&["Counter", "secret"], num(1))], "e", vec![print(var("e"))]),
        attempt(
            vec![evaluate(qualified_call(&["Counter", "count"], vec![]))],
            "e",
            vec![print(var("e"))],
        ),
        class(
            "Child",
            Some("Counter"),
            vec![method_of("look", vec![], vec![give(array(vec![var("guarded"), var("count")]))])],
            vec![],
            vec![],
        ),
        print(method(call("Child", vec![]), "look", vec![])),
    ]);
    assert_eq!(
        printed,
        vec![
            TValue::Number(0),
            TValue::Number(1),
            TValue::Number(3),
            TValue::Number(10),
            TValue::Number(10),
            TValue::Number(5),
            TValue::String("AccessViolation".to_string()),
            TValue::String("AccessViolation".to_string()),
            TValue::String("TypeMismatch".to_string()),
            TValue::String("AccessViolation".to_string()),
            TValue::String("TypeMismatch".to_string()),
            TValue::Array(numbers(&[6, 11])),
        ]
    );
    assert_eq!(ending, FINISHED);
}

#[test]
fn shared_variables_live_as_long_as_the_scope_of_their_class() {
    let (printed, ending) = drive(vec![for_each(
        "round",
        binary(num(1), BinaryOperator::Range, num(2)),
        vec![
            class(
                "Local",
                None,
                vec![shared_variable("seen", Some(var("round")))],
                vec![],
                vec![],
            ),
            print(dotted(&["Local", "seen"])),
            set_path(&["Local", "seen"], num(0)),
        ],
    )]);
    assert_eq!(printed, numbers(&[1, 2]));
    assert_eq!(ending, FINISHED);
}

#[test]
fn a_function_in_a_function_sees_the_variables_of_the_call() {
    let (printed, ending) = drive(vec![
        function(
            "outer",
            vec!["a"],
            vec![
                declare("b", Some(num(2))),
                give(call("inner", vec![num(3)])),
                function(
                    "inner",
                    vec!["c"],
                    vec![give(array(vec![var("a"), var("b"), var("c")]))],
                ),
            ],
        ),
        print(call("outer", vec![num(1)])),
        attempt(vec![evaluate(call("inner", vec![num(0)]))], "e", vec![print(var("e"))]),
    ]);
    assert_eq!(
        printed,
        vec![
            TValue::Array(numbers(&[1, 2, 3])),
            TValue::String("UndefinedReference".to_string())
        ]
    );
    assert_eq!(ending, FINISHED);
}

#[test]
fn a_function_can_call_itself() {
    let factorial = function(
        "factorial",
        vec!["n"],
        vec![
            when(
                binary(var("n"), BinaryOperator::Leq, num(1)),
                block(vec![give(num(1))]),
                None,
            ),
            give(binary(
                var("n"),
                BinaryOperator::Mul,
                call("factorial", vec![binary(var("n"), BinaryOperator::Sub, num(1))]),
            )),
        ],
    );
    let (printed, _) = drive(vec![
        factorial,
        print(call("factorial", vec![num(10)])),
        attempt(vec![print(call("factorial", vec![num(13)]))], "e", vec![print(var("e"))]),
    ]);
    assert_eq!(
        printed,
        vec![TValue::Number(3628800), TValue::String("OperationNotPossible".to_string())]
    );
}

#[test]
fn parameters_are_variables_of_the_call() {
    let (_, ending) = drive(vec![
        function("twice", vec!["a", "a"], vec![]),
        evaluate(call("twice", vec![num(1), num(2)])),
    ]);
    assert_eq!(ending, "Conflict(a)");
    let (_, ending) = drive(vec![
        function("again", vec!["a"], vec![declare("a", None)]),
        evaluate(call("again", vec![num(1)])),
    ]);
    assert_eq!(ending, "Conflict(a)");
    let (_, ending) = drive(vec![
        function("f", vec![], vec![function("g", vec![], vec![]), function("g", vec![], vec![])]),
        print(num(1)),
        evaluate(call("f", vec![])),
    ]);
    assert_eq!(ending, "Conflict(g)");
}

#[test]
fn each_round_of_a_loop_has_a_scope_of_its_own() {
    let (printed, ending) = drive(vec![
        declare("i", Some(num(100))),
        for_each(
            "i",
            binary(num(1), BinaryOperator::Range, num(3)),
            vec![declare("double", Some(binary(var("i"), BinaryOperator::Mul, num(2)))), print(var("double"))],
        ),
        print(var("i")),
        attempt(vec![print(var("double"))], "e", vec![print(var("e"))]),
    ]);
    assert_eq!(
        printed,
        vec![
            TValue::Number(2),
            TValue::Number(4),
            TValue::Number(6),
            TValue::Number(100),
            TValue::String("UndefinedReference".to_string()),
        ]
    );
    assert_eq!(ending, FINISHED);
}

#[test]
fn texts_are_compared_in_programs() {
    let (printed, _) = drive(vec![
        print(binary(text("abc"), BinaryOperator::Lt, text("abd"))),
        print(binary(text("b"), BinaryOperator::Geq, text("abc"))),
        print(binary(text("a"), BinaryOperator::Eq, text("a"))),
        print(binary(text("a"), BinaryOperator::Neq, num(1))),
        print(binary(
            array(vec![num(1), text("x")]),
            BinaryOperator::Eq,
            array(vec![num(1), text("x")]),
        )),
    ]);
    assert_eq!(
        printed,
        vec![
            TValue::Boolean(true),
            TValue::Boolean(true),
            TValue::Boolean(true),
            TValue::Boolean(true),
            TValue::Boolean(true),
        ]
    );
}

fn interpret_in<'a, T: Interpretable>(
    piece: &'a T,
    engine: &mut Engine<'a>,
) -> interpreter::completion::Flow<'a, TValue> {
    piece.interpret(engine, &vec![], 100)
}

#[test]
fn every_piece_is_interpreted_the_same_way() {
    let variables = vec![Variable { identifier: id("x"), expression: Some(num(1)) }];
    let declared = function_of("f", vec![], vec![give(num(2))]);
    let twin = Declaration::Function(function_of("f", vec![], vec![]));
    let called = call("f", vec![]);
    let shown = Statement::Expression(call("print", vec![var("x")]));
    let mut engine = Engine::new();
    engine.enter();
    assert!(matches!(
        interpret_in(&variables, &mut engine),
        Ok(interpreter::completion::Completion::Normal(None))
    ));
    assert!(matches!(
        interpret_in(&declared, &mut engine),
        Ok(interpreter::completion::Completion::Normal(None))
    ));
    assert!(matches!(interpret_in(&twin, &mut engine), Err(Interrupt::Conflict(_))));
    assert!(matches!(
        interpret_in(&called, &mut engine),
        Ok(interpreter::completion::Completion::Normal(Some(TValue::Number(2))))
    ));
    assert!(matches!(
        interpret_in(&shown, &mut engine),
        Ok(interpreter::completion::Completion::Normal(None))
    ));
    assert_eq!(engine.output, vec![TValue::Number(1)]);
    let directive = Directive::Use(UseDirective { source: None, imports: vec![] });
    assert!(matches!(
        interpret_in(&directive, &mut engine),
        Err(Interrupt::Host(HostRequest::Import(_)))
    ));
}

#[test]
fn a_class_in_a_namespace_knows_its_neighbours() {
    let (printed, ending) = drive(vec![
        namespace(
            "shapes",
            vec![
                function(
                    "area",
                    vec!["w", "h"],
                    vec![give(binary(var("w"), BinaryOperator::Mul, var("h")))],
                ),
                class("Base", None, vec![field("kind", Some(text("base")))], vec![], vec![]),
                class(
                    "Rect",
                    Some("Base"),
                    vec![
                        constructor(
                            vec!["w", "h"],
                            vec![],
                            vec![
                                set_member(var("this"), "w", var("w")),
                                set_member(var("this"), "h", var("h")),
                                set("first", call("area", vec![var("w"), var("h")])),
                            ],
                        ),
                        field("w", None),
                        field("h", None),
                        field("first", None),
                        method_of(
                            "size",
                            vec![],
                            vec![give(call(
                                "area",
                                vec![dotted(&["this", "w"]), dotted(&["this", "h"])],
                            ))],
                        ),
                        method_of("twin", vec![], vec![give(call("Rect", vec![num(1), num(1)]))]),
                    ],
                    vec![],
                    vec![],
                ),
            ],
        ),
        declare("r", Some(qualified_call(&["shapes", "Rect"], vec![num(2), num(3)]))),
        print(method(var("r"), "size", vec![])),
        print(member(var("r"), "first")),
        print(member(var("r"), "kind")),
        print(method(method(var("r"), "twin", vec![]), "size", vec![])),
    ]);
    assert_eq!(
        printed,
        vec![
            TValue::Number(6),
            TValue::Number(6),
            TValue::String("base".to_string()),
            TValue::Number(1),
        ]
    );
    assert_eq!(ending, FINISHED);
}
