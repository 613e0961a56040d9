//! The syntax tree that the parser builds. Every node records the span of
//! source text it was parsed from.

use vstd::prelude::*;
use crate::source::Span;
use std::rc::Rc;

verus! {

/// A parsed source file: its top-level items in order.
#[derive(Debug)]
pub struct Program {
    pub items: Vec<Item>,
}

/// Whether a top-level item is visible to importing modules.
#[derive(Debug, Clone, Copy, PartialEq, Eq, Structural)]
pub enum Visibility {
    Public,
    Private,
}

/// A top-level item.
#[derive(Debug)]
pub struct Item {
    pub span: Span,
    pub visibility: Visibility,
    pub data: ItemData,
}

#[derive(Debug)]
pub enum ItemData {
    Binding(Binding),
}

/// A binding of a name to the value of an expression.
#[derive(Debug)]
pub struct Binding {
    pub phase: Phase,
    pub mutable: bool,
    pub name: Span,
    pub type_annotation: Option<TypeExpression>,
    pub expression: Expression,
}

/// When a binding's value is computed: while compiling, or when the program runs.
#[derive(Debug, Clone, Copy, PartialEq, Eq, Structural)]
pub enum Phase {
    Comptime,
    Runtime,
}

#[derive(Debug)]
pub struct Expression {
    pub span: Span,
    pub data: ExpressionData,
}

#[derive(Debug)]
pub enum ExpressionData {
    Function(Rc<FunctionExpression>),
    IntegerLiteral,
    StringLiteral,
    Boolean(bool),
    Name,
    Binary {
        lhs: Box<Expression>,
        operator: BinaryOperator,
        rhs: Box<Expression>,
    },
    Unary {
        operator: UnaryOperator,
        operand: Box<Expression>,
    },
    Call {
        callee: Box<Expression>,
        arguments: Vec<Expression>,
    },
    Specialize {
        callee: Box<Expression>,
        arguments: Vec<Expression>,
    },
    Intrinsic {
        name: Span,
    },
    Import {
        path: Span,
    },
    Member {
        base: Box<Expression>,
        name: Span,
    },
    Index {
        base: Box<Expression>,
        index: Box<Expression>,
    },
    ArrayRepeatInitialization {
        value: Box<Expression>,
        size: Box<Expression>,
    },
    TypeValue(TypeExpression),
}

#[derive(Debug, Clone, Copy, PartialEq, Eq, Structural)]
pub enum BinaryOperator {
    Add,
    Subtract,
    Multiply,
    Divide,
    Equal,
    NotEqual,
    LessThan,
    LessThanOrEqual,
    GreaterThan,
    GreaterThanOrEqual,
}

#[derive(Debug, Clone, Copy, PartialEq, Eq, Structural)]
pub enum UnaryOperator {
    Negate,
}

/// A function literal (shared, since compile-time templates keep it): its compile-time parameters, runtime parameters,
/// return type and body.
#[derive(Debug)]
pub struct FunctionExpression {
    pub comptime_args: Vec<Parameter>,
    pub runtime_args: Vec<Parameter>,
    pub return_type: TypeExpression,
    pub body: Block,
}

#[derive(Debug)]
pub struct Parameter {
    pub name: Span,
    pub type_annotation: TypeExpression,
    pub span: Span,
}

#[derive(Debug)]
pub struct TypeExpression {
    pub span: Span,
    pub data: TypeExpressionData,
}

#[derive(Debug)]
pub enum TypeExpressionData {
    Identifier,
    Unit,
    FixedArray {
        size: Box<Expression>,
        base_type: Box<TypeExpression>,
    },
    Function {
        parameters: Vec<TypeExpression>,
        return_type: Box<TypeExpression>,
    },
}

#[derive(Debug)]
pub struct Block {
    pub statements: Vec<Statement>,
    pub span: Span,
}

#[derive(Debug)]
pub struct Statement {
    pub span: Span,
    pub data: StatementData,
}

#[derive(Debug)]
pub enum StatementData {
    Return(Option<Expression>),
    Binding(Binding),
    Expression(Expression),
    Assignment {
        target: Expression,
        expression: Expression,
    },
    While(While),
    If(If),
}

#[derive(Debug)]
pub struct While {
    pub condition: Expression,
    pub while_block: Block,
}

#[derive(Debug)]
pub struct If {
    pub condition: Expression,
    pub then_block: Block,
    pub else_: Option<ElseBranch>,
}

#[derive(Debug)]
pub enum ElseBranch {
    ElseIf(Box<Statement>),
    Else(Block),
}

} // verus!
