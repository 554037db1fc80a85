use interpreter::access::{
    field_of, item_of, member_of, place_arguments, read_path, set_entry, write_path,
};
use interpreter::ast::{
    Class, ClassItem, Constructor, Declaration, Function, FunctionCallArgument, Identifier,
    Namespace, Parameter, Variable,
};
use interpreter::classes::{is_allowed, is_same_class, new_fields, Visibility};
use interpreter::engine::{ClassRef, Engine, Instance};
use interpreter::error::InterpreterError;
use interpreter::scope::DeclStackItem;
use interpreter::semantics::Selector;
use interpreter::value::{find_entry, TValue};

fn id(text: &str) -> Identifier {
    Identifier(text.to_string())
}

fn function(name: &str) -> Function {
    Function { identifier: id(name), parameters: vec![], body: vec![] }
}

fn field(name: &str) -> ClassItem {
    ClassItem::Declaration(Declaration::Variable(vec![Variable {
        identifier: id(name),
        expression: None,
    }]))
}

fn class(
    name: &str,
    public_items: Vec<ClassItem>,
    protected_items: Vec<ClassItem>,
    private_items: Vec<ClassItem>,
) -> Class {
    Class { identifier: id(name), extends: None, public_items, private_items, protected_items }
}

#[test]
fn a_name_conflicts_in_its_own_scope_only() {
    let x = id("x");
    let mut engine = Engine::new();
    engine.enter();
    assert!(engine.declare_variable(&x, TValue::Number(1)).is_ok());
    match engine.declare_variable(&x, TValue::Number(2)) {
        Err(InterpreterError::ConflictWithPreviousDeclaration(name)) => assert_eq!(name, x),
        other => panic!("no conflict: {:?}", other),
    }
    assert_eq!(engine.variable(&x), Some(TValue::Number(1)));
    engine.enter();
    assert!(engine.declare_variable(&x, TValue::Number(3)).is_ok());
    assert_eq!(engine.variable(&x), Some(TValue::Number(3)));
    assert_eq!(engine.find_variable(&x), Some((1, 0)));
    engine.leave();
    assert_eq!(engine.variable(&x), Some(TValue::Number(1)));
    assert_eq!(engine.depth(), 1);
    engine.leave();
    assert_eq!(engine.variable(&x), None);
    assert_eq!(engine.depth(), 0);
}

#[test]
fn declarations_conflict_in_their_own_scope_only() {
    let f = function("f");
    let twin = function("f");
    let space = Namespace { identifier: id("f"), body: vec![] };
    let mut engine = Engine::new();
    engine.enter();
    assert!(f.interpret(&mut engine).is_ok());
    assert!(matches!(
        twin.interpret(&mut engine),
        Err(InterpreterError::ConflictWithPreviousDeclaration(_))
    ));
    assert!(matches!(
        space.interpret(&mut engine),
        Err(InterpreterError::ConflictWithPreviousDeclaration(_))
    ));
    assert!(matches!(engine.find_declaration(&id("f")), Some((0, DeclStackItem::Function(_)))));
    engine.enter();
    assert!(space.interpret(&mut engine).is_ok());
    assert!(matches!(engine.find_declaration(&id("f")), Some((1, DeclStackItem::Namespace(_)))));
    assert!(matches!(
        engine.find_declaration_within(&id("f"), 1),
        Some((0, DeclStackItem::Function(_)))
    ));
    assert!(engine.find_declaration_within(&id("f"), 0).is_none());
    engine.leave();
    assert!(matches!(engine.find_declaration(&id("f")), Some((0, DeclStackItem::Function(_)))));
    assert!(engine.find_declaration(&id("g")).is_none());
}

#[test]
fn a_variable_and_a_declaration_of_one_name_do_not_conflict() {
    let f = function("f");
    let mut engine = Engine::new();
    engine.enter();
    assert!(f.interpret(&mut engine).is_ok());
    assert!(engine.declare_variable(&f.identifier, TValue::Null).is_ok());
}

#[test]
fn assignment_changes_the_innermost_variable() {
    let x = id("x");
    let y = id("y");
    let mut engine = Engine::new();
    engine.enter();
    engine.declare_variable(&x, TValue::Number(1)).unwrap();
    engine.declare_variable(&y, TValue::Number(2)).unwrap();
    engine.enter();
    engine.declare_variable(&x, TValue::Number(3)).unwrap();
    assert!(engine.assign(&x, TValue::Number(4)));
    assert!(engine.assign(&y, TValue::Number(5)));
    assert!(!engine.assign(&id("z"), TValue::Number(6)));
    assert_eq!(engine.variable(&x), Some(TValue::Number(4)));
    engine.leave();
    assert_eq!(engine.variable(&x), Some(TValue::Number(1)));
    assert_eq!(engine.variable(&y), Some(TValue::Number(5)));
}

#[test]
fn scopes_are_put_aside_and_put_back() {
    let x = id("x");
    let y = id("y");
    let mut engine = Engine::new();
    engine.enter();
    engine.declare_variable(&x, TValue::Number(1)).unwrap();
    engine.enter();
    engine.declare_variable(&y, TValue::Number(2)).unwrap();
    let saved = engine.detach(0);
    assert_eq!(engine.depth(), 1);
    assert_eq!(engine.variable(&y), None);
    assert_eq!(engine.variable(&x), Some(TValue::Number(1)));
    engine.attach(saved);
    assert_eq!(engine.depth(), 2);
    assert_eq!(engine.variable(&y), Some(TValue::Number(2)));
}

#[test]
fn printing_keeps_the_order() {
    let mut engine = Engine::with_builtins(vec!["len".to_string()]);
    engine.print(TValue::Number(1));
    engine.print(TValue::Null);
    assert_eq!(engine.output, vec![TValue::Number(1), TValue::Null]);
    assert_eq!(engine.builtins, vec!["len".to_string()]);
}

#[test]
fn items_and_members() {
    let engine = Engine::new();
    let list = TValue::Array(vec![TValue::Number(1), TValue::Number(2)]);
    let table = TValue::Dictionary(vec![("k".to_string(), TValue::Number(3))]);
    assert_eq!(item_of(&list, &TValue::Number(1)).unwrap(), TValue::Number(2));
    assert!(matches!(item_of(&list, &TValue::Number(2)), Err(InterpreterError::UndefinedReference)));
    assert!(matches!(item_of(&list, &TValue::Null), Err(InterpreterError::TypeMismatch)));
    assert_eq!(item_of(&table, &TValue::String("k".to_string())).unwrap(), TValue::Number(3));
    assert!(matches!(
        item_of(&table, &TValue::String("l".to_string())),
        Err(InterpreterError::UndefinedReference)
    ));
    assert_eq!(member_of(&table, &id("k"), &engine).unwrap(), TValue::Number(3));
    assert!(matches!(
        member_of(&table, &id("l"), &engine),
        Err(InterpreterError::UndefinedReference)
    ));
    assert!(matches!(member_of(&list, &id("k"), &engine), Err(InterpreterError::TypeMismatch)));
    assert!(matches!(
        member_of(&TValue::Object(0), &id("k"), &engine),
        Err(InterpreterError::UndefinedReference)
    ));
    assert!(matches!(field_of(3, &id("k"), &engine), Err(InterpreterError::UndefinedReference)));
}

#[test]
fn entries_keep_their_place() {
    let mut entries = vec![("a".to_string(), TValue::Number(1)), ("b".to_string(), TValue::Number(2))];
    set_entry(&mut entries, &"a".to_string(), TValue::Number(3));
    set_entry(&mut entries, &"c".to_string(), TValue::Number(4));
    assert_eq!(
        entries,
        vec![
            ("a".to_string(), TValue::Number(3)),
            ("b".to_string(), TValue::Number(2)),
            ("c".to_string(), TValue::Number(4)),
        ]
    );
    assert_eq!(find_entry(&entries, &"b".to_string()), Some(1));
    assert_eq!(find_entry(&entries, &"z".to_string()), None);
}

#[test]
fn paths_through_values() {
    let key = id("k");
    let mut engine = Engine::new();
    let value = TValue::Array(vec![TValue::Dictionary(vec![("k".to_string(), TValue::Number(1))])]);
    let path = vec![Selector::Index(TValue::Number(0)), Selector::Member(&key)];
    assert_eq!(read_path(value.clone(), &path, 2, &engine).unwrap(), TValue::Number(1));
    assert_eq!(
        read_path(value.clone(), &path, 1, &engine).unwrap(),
        TValue::Dictionary(vec![("k".to_string(), TValue::Number(1))])
    );
    assert_eq!(read_path(value.clone(), &path, 0, &engine).unwrap(), value);
    assert_eq!(
        write_path(value.clone(), &path, 0, TValue::Number(2), &mut engine).unwrap(),
        TValue::Array(vec![TValue::Dictionary(vec![("k".to_string(), TValue::Number(2))])])
    );
    assert_eq!(
        write_path(value.clone(), &path, 2, TValue::Number(2), &mut engine).unwrap(),
        TValue::Number(2)
    );
    let far = vec![Selector::Index(TValue::Number(1))];
    assert!(matches!(
        write_path(value.clone(), &far, 0, TValue::Null, &mut engine),
        Err(InterpreterError::UndefinedReference)
    ));
    assert!(matches!(
        write_path(TValue::Number(1), &far, 0, TValue::Null, &mut engine),
        Err(InterpreterError::TypeMismatch)
    ));
}

#[test]
fn fields_of_instances() {
    let base = class("Base", vec![field("open")], vec![field("guarded")], vec![field("closed")]);
    let derived = class("Derived", vec![field("own"), field("open")], vec![], vec![]);
    let lineage =
        vec![ClassRef { class: &derived, depth: 0 }, ClassRef { class: &base, depth: 0 }];
    let fields = new_fields(&lineage);
    let names: Vec<&str> = fields.iter().map(|(name, _)| name.0.as_str()).collect();
    assert_eq!(names, vec!["open", "guarded", "closed", "own"]);
    assert!(fields.iter().all(|(_, value)| *value == TValue::Null));

    let mut engine = Engine::new();
    engine.heap.push(Instance { lineage, chains: vec![vec![], vec![]], fields });
    assert_eq!(field_of(0, &id("open"), &engine).unwrap(), TValue::Null);
    assert!(matches!(field_of(0, &id("guarded"), &engine), Err(InterpreterError::AccessViolation)));
    assert!(matches!(field_of(0, &id("closed"), &engine), Err(InterpreterError::AccessViolation)));
    assert!(matches!(field_of(0, &id("none"), &engine), Err(InterpreterError::UndefinedReference)));

    engine.context = vec![ClassRef { class: &derived, depth: 0 }, ClassRef { class: &base, depth: 0 }];
    assert!(field_of(0, &id("guarded"), &engine).is_ok());
    assert!(matches!(field_of(0, &id("closed"), &engine), Err(InterpreterError::AccessViolation)));
    engine.context = vec![ClassRef { class: &base, depth: 0 }];
    assert!(field_of(0, &id("closed"), &engine).is_ok());

    let own = id("own");
    let path = vec![Selector::Member(&own)];
    assert_eq!(
        write_path(TValue::Object(0), &path, 0, TValue::Number(9), &mut engine).unwrap(),
        TValue::Object(0)
    );
    assert_eq!(field_of(0, &own, &engine).unwrap(), TValue::Number(9));
}

#[test]
fn who_may_use_a_member() {
    let a = class("A", vec![], vec![], vec![]);
    let b = class("B", vec![], vec![], vec![]);
    let owner = ClassRef { class: &a, depth: 1 };
    let same = ClassRef { class: &a, depth: 1 };
    let elsewhere = ClassRef { class: &a, depth: 2 };
    let other = ClassRef { class: &b, depth: 1 };
    assert!(is_same_class(&owner, &same));
    assert!(!is_same_class(&owner, &elsewhere));
    assert!(!is_same_class(&owner, &other));
    let outside: Vec<ClassRef> = vec![];
    let inside = vec![same];
    let descendant = vec![other, same];
    let stranger = vec![other];
    for context in [&outside, &inside, &descendant, &stranger] {
        assert!(is_allowed(Visibility::Public, &owner, context));
    }
    assert!(!is_allowed(Visibility::Protected, &owner, &outside));
    assert!(is_allowed(Visibility::Protected, &owner, &inside));
    assert!(is_allowed(Visibility::Protected, &owner, &descendant));
    assert!(!is_allowed(Visibility::Protected, &owner, &stranger));
    assert!(!is_allowed(Visibility::Private, &owner, &outside));
    assert!(is_allowed(Visibility::Private, &owner, &inside));
    assert!(!is_allowed(Visibility::Private, &owner, &descendant));
    assert!(!is_allowed(Visibility::Private, &owner, &stranger));
}

#[test]
fn what_a_class_declares() {
    let declared = Class {
        identifier: id("C"),
        extends: None,
        public_items: vec![
            field("open"),
            ClassItem::Declaration(Declaration::Function(function("act"))),
            ClassItem::StaticDeclaration(Declaration::Function(function("make"))),
        ],
        private_items: vec![ClassItem::Constructor(Constructor {
            parameters: vec![],
            super_parameters: vec![],
            body: vec![],
        })],
        protected_items: vec![field("guarded")],
    };
    assert_eq!(declared.field(&id("open")), Some(Visibility::Public));
    assert_eq!(declared.field(&id("guarded")), Some(Visibility::Protected));
    assert_eq!(declared.field(&id("act")), None);
    assert!(matches!(declared.method(&id("act")), Some((Visibility::Public, _))));
    assert!(declared.method(&id("make")).is_none());
    assert!(matches!(
        declared.shared(&id("make")),
        Some((Visibility::Public, DeclStackItem::Function(_)))
    ));
    assert!(declared.shared(&id("act")).is_none());
    assert!(matches!(declared.constructor(), Some((Visibility::Private, _))));
}

#[test]
fn arguments_find_their_parameters() {
    let parameters: Vec<Parameter> = ["a", "b", "c"]
        .iter()
        .map(|name| Parameter { identifier: id(name), expression: None })
        .collect();
    let arguments = vec![
        FunctionCallArgument {
            identifier: None,
            expression: interpreter::ast::Expression::Literal(interpreter::ast::Literal::Null),
        },
        FunctionCallArgument {
            identifier: Some(id("c")),
            expression: interpreter::ast::Expression::Literal(interpreter::ast::Literal::Null),
        },
    ];
    let values = vec![TValue::Number(1), TValue::Number(3)];
    assert_eq!(
        place_arguments(&parameters, Some(&arguments), &values).unwrap(),
        vec![Some(TValue::Number(1)), None, Some(TValue::Number(3))]
    );
    assert_eq!(
        place_arguments(&parameters, None, &values).unwrap(),
        vec![Some(TValue::Number(1)), Some(TValue::Number(3)), None]
    );
    let many = vec![TValue::Null, TValue::Null, TValue::Null, TValue::Null];
    assert!(matches!(
        place_arguments(&parameters, None, &many),
        Err(InterpreterError::TypeMismatch)
    ));
}
