//! The syntax tree that the engine walks.
//!
//! A host builds the tree once, from source text or by hand, and the engine only reads it
//! for as long as an interpretation lasts. Real literals are carried as the bit pattern of
//! an IEEE 754 double, so that the tree holds plain integers only.

use vstd::prelude::*;

verus! {

/// An ordered sequence of items that makes up one lexical scope.
#[derive(Debug)]
pub struct Block(pub Vec<BlockItem>);

#[derive(Debug)]
pub enum BlockItem {
    Declaration(Declaration),
    Statement(Statement),
    Directive(Directive),
}

/// Functions, classes and namespaces are known in the whole block that declares them;
/// a variable is known from the moment its declaration has run.
#[derive(Debug)]
pub enum Declaration {
    Variable(Vec<Variable>),
    Function(Function),
    Class(Class),
    Namespace(Namespace),
}

#[derive(Debug)]
pub struct Variable {
    pub identifier: Identifier,
    pub expression: Option<Expression>,
}

#[derive(Debug)]
pub struct Function {
    pub identifier: Identifier,
    pub parameters: Vec<Parameter>,
    pub body: Vec<BlockItem>,
}

#[derive(Debug)]
pub struct Parameter {
    pub identifier: Identifier,
    pub expression: Option<Expression>,
}

#[derive(Debug)]
pub struct Class {
    pub identifier: Identifier,
    pub extends: Option<Name>,
    pub public_items: Vec<ClassItem>,
    pub private_items: Vec<ClassItem>,
    pub protected_items: Vec<ClassItem>,
}

#[derive(Debug)]
pub enum ClassItem {
    Constructor(Constructor),
    StaticDeclaration(Declaration),
    Declaration(Declaration),
    Directive(Directive),
}

#[derive(Debug)]
pub struct Constructor {
    pub parameters: Vec<Parameter>,
    pub super_parameters: Vec<Expression>,
    pub body: Vec<BlockItem>,
}

#[derive(Debug)]
pub struct Namespace {
    pub identifier: Identifier,
    pub body: Vec<BlockItem>,
}

#[derive(Debug)]
pub enum Statement {
    Block(Block),
    Assignment(Assignment),
    Expression(Expression),
    Condition(Condition),
    ForLoop(ForLoop),
    WhileDoLoop(WhileLoop),
    DoWhileLoop(WhileLoop),
    Break,
    Continue,
    Return(Option<Expression>),
    Throw(Expression),
    TryCatch(TryCatch),
}

#[derive(Debug)]
pub struct Assignment {
    pub left_hand_side: LeftHandSide,
    pub operation: AssignmentOperator,
    pub expression: Expression,
}

#[derive(Debug)]
pub enum LeftHandSide {
    Name(Name),
    Item(ItemAccess),
    Member(MemberAccess),
}

#[derive(Debug, Clone, Copy)]
pub enum AssignmentOperator {
    Equals,
    Add,
    Sub,
    Mul,
    Div,
    Mod,
    Exp,
}

#[derive(Debug)]
pub struct Condition {
    pub expression: Expression,
    pub do_then: Box<Statement>,
    pub do_else: Option<Box<Statement>>,
}

#[derive(Debug)]
pub struct ForLoop {
    pub loop_var: Option<ForLoopVariable>,
    pub expression: Expression,
    pub do_for_each: Box<Statement>,
}

#[derive(Debug)]
pub enum ForLoopVariable {
    Identifier(Identifier),
    Name(Name),
}

#[derive(Debug)]
pub struct WhileLoop {
    pub expression: Expression,
    pub do_while: Box<Statement>,
}

#[derive(Debug)]
pub struct TryCatch {
    pub do_try: Box<Statement>,
    pub error: Identifier,
    pub do_catch: Box<Statement>,
}

#[derive(Debug)]
pub enum Directive {
    Use(UseDirective),
}

#[derive(Debug)]
pub struct UseDirective {
    pub source: Option<Name>,
    pub imports: Vec<Import>,
}

#[derive(Debug)]
pub enum Import {
    Namespace(Name),
    Name { name: Name, alias: Option<Identifier> },
}

/// An interned name. Two identifiers are the same when their texts are.
#[derive(Debug, Hash, PartialEq, Eq)]
pub struct Identifier(pub String);

/// A qualified path: one identifier or more.
#[derive(Debug, PartialEq, Eq)]
pub struct Name(pub Vec<Identifier>);

#[derive(Debug, PartialEq)]
pub enum Expression {
    Literal(Literal),
    Group(Group),
    UnaryOperation(UnaryOperation),
    BinaryOperation(BinaryOperation),
    FunctionCall(FunctionCall),
    ItemAccess(ItemAccess),
    MemberAccess(MemberAccess),
    Name(Name),
}

#[derive(Debug, PartialEq)]
pub enum Literal {
    Null,
    Boolean(bool),
    Integer(i32),
    /// The bit pattern of the double.
    Real(u64),
    String(String),
    Array(Vec<Expression>),
    Dictionary(Vec<(String, Expression)>),
    Lambda,
}

#[derive(Debug, PartialEq)]
pub enum Group {
    Rounded(Box<Expression>),
    Square(Box<Expression>),
    Curly(Box<Expression>),
}

#[derive(Debug, PartialEq)]
pub struct UnaryOperation {
    pub expression: Box<Expression>,
    pub operator: UnaryOperator,
}

#[derive(Debug, PartialEq, Eq, Clone, Copy)]
pub enum UnaryOperator {
    Not,
    Add,
    Sub,
}

#[derive(Debug, PartialEq)]
pub struct BinaryOperation {
    pub left: Box<Expression>,
    pub right: Box<Expression>,
    pub operator: BinaryOperator,
}

#[derive(Debug, PartialEq, Clone, Copy)]
pub enum BinaryOperator {
    Add,
    Sub,
    Mul,
    RDiv,
    IDiv,
    Mod,
    Pow,
    Eq,
    Neq,
    Lt,
    Gt,
    Leq,
    Geq,
    And,
    Or,
    Xor,
    Range,
}

#[derive(Debug, PartialEq)]
pub struct FunctionCall {
    pub expression: Box<Expression>,
    pub arguments: Vec<FunctionCallArgument>,
}

#[derive(Debug, PartialEq)]
pub struct FunctionCallArgument {
    pub identifier: Option<Identifier>,
    pub expression: Expression,
}

#[derive(Debug, PartialEq)]
pub struct ItemAccess {
    pub set: Box<Expression>,
    pub index: Box<Expression>,
}

#[derive(Debug, PartialEq)]
pub struct MemberAccess {
    pub expression: Box<Expression>,
    pub identifier: Identifier,
}

impl Identifier {
    /// The text of the identifier.
    pub open spec fn text(&self) -> Seq<char> {
        self.0@
    }

    /// Whether two identifiers name the same thing.
    pub fn same(&self, other: &Identifier) -> (r: bool)
        ensures
            r == (self.text() == other.text()),
    {
        self.0 == other.0
    }
}

impl Clone for Identifier {
    fn clone(&self) -> (r: Self)
        ensures
            r == *self,
    {
        Identifier(self.0.clone())
    }
}

} // verus!
