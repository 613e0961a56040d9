//! The elaborated program: names resolved to symbols, every expression typed.

use vstd::prelude::*;
use crate::ast::{BinaryOperator, Phase, UnaryOperator};
use crate::comptime::{FunctionId, FunctionTemplateId};
use crate::source::Span;
use crate::symbols::SymbolId;
use crate::types::Type;
use std::rc::Rc;

verus! {

broadcast use vstd::std_specs::vec::axiom_vec_index_decreases;

/// The elaborated expression refers only to symbols, functions and
/// templates whose identities are below `symbols`, `functions` and `templates`.
pub open spec fn expression_refs_valid(e: HirExpression, symbols: nat, functions: nat, templates: nat) -> bool
    decreases e, 0nat,
{
    match e.data {
        HirExpressionData::Function(f) => function_refs_valid(*f, symbols, functions, templates),
        HirExpressionData::Symbol(s) => s.0 < symbols,
        HirExpressionData::FunctionTemplate(t) => t.0 < templates,
        HirExpressionData::KnownFunction(f) => f.0 < functions,
        HirExpressionData::Unary { operand, .. } => expression_refs_valid(*operand, symbols, functions, templates),
        HirExpressionData::Binary { lhs, rhs, .. } =>
            expression_refs_valid(*lhs, symbols, functions, templates) && expression_refs_valid(*rhs, symbols, functions, templates),
        HirExpressionData::Call { callee, arguments } => {
            &&& expression_refs_valid(*callee, symbols, functions, templates)
            &&& forall|i: int| 0 <= i < arguments@.len() ==> expression_refs_valid(#[trigger] arguments@[i], symbols, functions, templates)
        },
        HirExpressionData::Index { base, index } =>
            expression_refs_valid(*base, symbols, functions, templates) && expression_refs_valid(*index, symbols, functions, templates),
        HirExpressionData::ArrayRepeatInitialization { value, .. } => expression_refs_valid(*value, symbols, functions, templates),
        _ => true,
    }
}

/// The elaborated function refers only to existing symbols, functions and templates.
pub open spec fn function_refs_valid(f: HirFunctionExpression, symbols: nat, functions: nat, templates: nat) -> bool
    decreases f, 0nat,
{
    &&& forall|i: int| 0 <= i < f.parameters@.len() ==> (#[trigger] f.parameters@[i]).symbol.0 < symbols
    &&& block_refs_valid(f.body, symbols, functions, templates)
}

/// The elaborated block refers only to existing symbols, functions and templates.
pub open spec fn block_refs_valid(b: HirBlock, symbols: nat, functions: nat, templates: nat) -> bool
    decreases b, 0nat,
{
    forall|i: int| 0 <= i < b.statements@.len() ==> statement_refs_valid(#[trigger] b.statements@[i], symbols, functions, templates)
}

/// The elaborated statement refers only to existing symbols, functions and templates.
pub open spec fn statement_refs_valid(s: HirStatement, symbols: nat, functions: nat, templates: nat) -> bool
    decreases s, 0nat,
{
    match s.data {
        HirStatementData::Return(value) => match value {
            Some(e) => expression_refs_valid(e, symbols, functions, templates),
            None => true,
        },
        HirStatementData::Expression(e) => expression_refs_valid(e, symbols, functions, templates),
        HirStatementData::Binding { symbol, expression } =>
            symbol.0 < symbols && expression_refs_valid(expression, symbols, functions, templates),
        HirStatementData::If { condition, then_block, else_branch } => {
            &&& expression_refs_valid(condition, symbols, functions, templates)
            &&& block_refs_valid(then_block, symbols, functions, templates)
            &&& match else_branch {
                Some(HirElseBranch::ElseIf(nested)) => statement_refs_valid(*nested, symbols, functions, templates),
                Some(HirElseBranch::Else(block)) => block_refs_valid(block, symbols, functions, templates),
                None => true,
            }
        },
        HirStatementData::While { condition, while_block } =>
            expression_refs_valid(condition, symbols, functions, templates) && block_refs_valid(while_block, symbols, functions, templates),
        HirStatementData::Assignment { target, expression } =>
            place_refs_valid(target, symbols, functions, templates) && expression_refs_valid(expression, symbols, functions, templates),
        HirStatementData::Error => true,
    }
}

/// The assignment target refers only to existing symbols, functions and templates.
pub open spec fn place_refs_valid(p: HirPlace, symbols: nat, functions: nat, templates: nat) -> bool
    decreases p, 0nat,
{
    match p.data {
        HirPlaceData::Symbol(s) => s.0 < symbols,
        HirPlaceData::Index { array, index, .. } => array.0 < symbols && expression_refs_valid(index, symbols, functions, templates),
    }
}

/// Whether control never goes on past the statement: it returns, or it is a
/// conditional with an `else` whose branches both never go on.
pub open spec fn statement_diverges(s: HirStatement) -> bool
    decreases s, 0nat,
{
    match s.data {
        HirStatementData::Return(_) => true,
        HirStatementData::If { then_block, else_branch, .. } => {
            &&& block_diverges(then_block)
            &&& match else_branch {
                Some(HirElseBranch::ElseIf(nested)) => statement_diverges(*nested),
                Some(HirElseBranch::Else(block)) => block_diverges(block),
                None => false,
            }
        },
        _ => false,
    }
}

/// Whether control never goes on past the block: one of its statements
/// never goes on.
pub open spec fn block_diverges(b: HirBlock) -> bool
    decreases b, 0nat,
{
    exists|i: int| 0 <= i < b.statements@.len() && statement_diverges(#[trigger] b.statements@[i])
}

/// What refers only to existing entries keeps doing so as the tables grow.
pub proof fn lemma_expression_refs_grow(e: HirExpression, s: nat, f: nat, t: nat, s2: nat, f2: nat, t2: nat)
    requires
        expression_refs_valid(e, s, f, t),
        s <= s2,
        f <= f2,
        t <= t2,
    ensures
        expression_refs_valid(e, s2, f2, t2),
    decreases e, 0nat,
{
    match e.data {
        HirExpressionData::Function(_) => {
            let fun = *(e.data->Function_0);
            lemma_function_refs_grow(fun, s, f, t, s2, f2, t2);
        },
        HirExpressionData::Unary { operand, .. } => lemma_expression_refs_grow(*operand, s, f, t, s2, f2, t2),
        HirExpressionData::Binary { lhs, rhs, .. } => {
            lemma_expression_refs_grow(*lhs, s, f, t, s2, f2, t2);
            lemma_expression_refs_grow(*rhs, s, f, t, s2, f2, t2);
        },
        HirExpressionData::Call { callee, arguments } => {
            lemma_expression_refs_grow(*callee, s, f, t, s2, f2, t2);
            assert forall|i: int| 0 <= i < arguments@.len() implies expression_refs_valid(#[trigger] arguments@[i], s2, f2, t2) by {
                lemma_expression_refs_grow(arguments@[i], s, f, t, s2, f2, t2);
            }
        },
        HirExpressionData::Index { base, index } => {
            lemma_expression_refs_grow(*base, s, f, t, s2, f2, t2);
            lemma_expression_refs_grow(*index, s, f, t, s2, f2, t2);
        },
        HirExpressionData::ArrayRepeatInitialization { value, .. } => lemma_expression_refs_grow(*value, s, f, t, s2, f2, t2),
        _ => {},
    }
}

/// What refers only to existing entries keeps doing so as the tables grow.
pub proof fn lemma_function_refs_grow(fun: HirFunctionExpression, s: nat, f: nat, t: nat, s2: nat, f2: nat, t2: nat)
    requires
        function_refs_valid(fun, s, f, t),
        s <= s2,
        f <= f2,
        t <= t2,
    ensures
        function_refs_valid(fun, s2, f2, t2),
    decreases fun, 0nat,
{
    lemma_block_refs_grow(fun.body, s, f, t, s2, f2, t2);
}

/// What refers only to existing entries keeps doing so as the tables grow.
pub proof fn lemma_block_refs_grow(b: HirBlock, s: nat, f: nat, t: nat, s2: nat, f2: nat, t2: nat)
    requires
        block_refs_valid(b, s, f, t),
        s <= s2,
        f <= f2,
        t <= t2,
    ensures
        block_refs_valid(b, s2, f2, t2),
    decreases b, 0nat,
{
    assert forall|i: int| 0 <= i < b.statements@.len() implies statement_refs_valid(#[trigger] b.statements@[i], s2, f2, t2) by {
        lemma_statement_refs_grow(b.statements@[i], s, f, t, s2, f2, t2);
    }
}

/// What refers only to existing entries keeps doing so as the tables grow.
pub proof fn lemma_statement_refs_grow(st: HirStatement, s: nat, f: nat, t: nat, s2: nat, f2: nat, t2: nat)
    requires
        statement_refs_valid(st, s, f, t),
        s <= s2,
        f <= f2,
        t <= t2,
    ensures
        statement_refs_valid(st, s2, f2, t2),
    decreases st, 0nat,
{
    match st.data {
        HirStatementData::Return(value) => match value {
            Some(e) => lemma_expression_refs_grow(e, s, f, t, s2, f2, t2),
            None => {},
        },
        HirStatementData::Expression(e) => lemma_expression_refs_grow(e, s, f, t, s2, f2, t2),
        HirStatementData::Binding { expression, .. } => lemma_expression_refs_grow(expression, s, f, t, s2, f2, t2),
        HirStatementData::If { condition, then_block, else_branch } => {
            lemma_expression_refs_grow(condition, s, f, t, s2, f2, t2);
            lemma_block_refs_grow(then_block, s, f, t, s2, f2, t2);
            match else_branch {
                Some(HirElseBranch::ElseIf(nested)) => lemma_statement_refs_grow(*nested, s, f, t, s2, f2, t2),
                Some(HirElseBranch::Else(block)) => lemma_block_refs_grow(block, s, f, t, s2, f2, t2),
                None => {},
            }
        },
        HirStatementData::While { condition, while_block } => {
            lemma_expression_refs_grow(condition, s, f, t, s2, f2, t2);
            lemma_block_refs_grow(while_block, s, f, t, s2, f2, t2);
        },
        HirStatementData::Assignment { target, expression } => {
            lemma_place_refs_grow(target, s, f, t, s2, f2, t2);
            lemma_expression_refs_grow(expression, s, f, t, s2, f2, t2);
        },
        HirStatementData::Error => {},
    }
}

/// What refers only to existing entries keeps doing so as the tables grow.
pub proof fn lemma_place_refs_grow(p: HirPlace, s: nat, f: nat, t: nat, s2: nat, f2: nat, t2: nat)
    requires
        place_refs_valid(p, s, f, t),
        s <= s2,
        f <= f2,
        t <= t2,
    ensures
        place_refs_valid(p, s2, f2, t2),
    decreases p, 0nat,
{
    match p.data {
        HirPlaceData::Index { index, .. } => lemma_expression_refs_grow(index, s, f, t, s2, f2, t2),
        _ => {},
    }
}

/// The elaborated bindings of a program, in declaration order.
#[derive(Debug)]
pub struct HirProgram {
    pub bindings: Vec<Rc<HirBinding>>,
}

/// An elaborated top-level item.
#[derive(Debug)]
pub struct HirItem {
    pub span: Span,
    pub data: HirItemData,
}

#[derive(Debug)]
pub enum HirItemData {
    Binding(HirBinding),
}

/// An elaborated binding: the symbol it declares and its expression.
#[derive(Debug)]
pub struct HirBinding {
    pub symbol: SymbolId,
    pub phase: Phase,
    pub mutable: bool,
    pub expression: HirExpression,
    pub span: Span,
}

/// A typed expression.
#[derive(Debug)]
pub struct HirExpression {
    pub type_: Type,
    pub span: Span,
    pub data: HirExpressionData,
}

impl HirExpression {
    /// The expression that stands in for one that could not be elaborated.
    pub fn error(span: Span) -> (expression: HirExpression)
        ensures
            expression.type_ is Error,
            expression.data is Error,
            expression.span == span,
    {
        HirExpression { type_: Type::Error, data: HirExpressionData::Error, span }
    }
}

#[derive(Debug)]
pub enum HirExpressionData {
    Function(Rc<HirFunctionExpression>),
    Integer(i128),
    Symbol(SymbolId),
    Bool(bool),
    StringLiteral(String),
    TypeValue(Type),
    FunctionTemplate(FunctionTemplateId),
    KnownFunction(FunctionId),
    Unary {
        operator: UnaryOperator,
        operand: Box<HirExpression>,
    },
    Binary {
        lhs: Box<HirExpression>,
        operator: BinaryOperator,
        rhs: Box<HirExpression>,
    },
    Call {
        callee: Box<HirExpression>,
        arguments: Vec<HirExpression>,
    },
    Index {
        base: Box<HirExpression>,
        index: Box<HirExpression>,
    },
    ArrayRepeatInitialization {
        amount: usize,
        value: Box<HirExpression>,
    },
    Error,
}

#[derive(Debug)]
pub enum HirElseBranch {
    ElseIf(Box<HirStatement>),
    Else(HirBlock),
}

/// An elaborated function: its runtime parameters, return type and body.
#[derive(Debug)]
pub struct HirFunctionExpression {
    pub parameters: Vec<HirParameter>,
    pub return_type: Type,
    pub body: HirBlock,
}

#[derive(Debug)]
pub struct HirParameter {
    pub symbol: SymbolId,
    pub name: Span,
    pub type_: Type,
    pub span: Span,
}

#[derive(Debug)]
pub struct HirBlock {
    pub statements: Vec<HirStatement>,
    pub span: Span,
}

#[derive(Debug)]
pub struct HirStatement {
    pub span: Span,
    pub data: HirStatementData,
}

impl HirStatement {
    /// The statement that stands in for one that could not be elaborated.
    pub fn error(span: Span) -> (statement: HirStatement)
        ensures
            statement.data is Error,
            statement.span == span,
    {
        HirStatement { span, data: HirStatementData::Error }
    }
}

#[derive(Debug)]
pub enum HirStatementData {
    Return(Option<HirExpression>),
    Expression(HirExpression),
    Binding {
        symbol: SymbolId,
        expression: HirExpression,
    },
    If {
        condition: HirExpression,
        then_block: HirBlock,
        else_branch: Option<HirElseBranch>,
    },
    While {
        condition: HirExpression,
        while_block: HirBlock,
    },
    Assignment {
        target: HirPlace,
        expression: HirExpression,
    },
    Error,
}

/// Storage that an assignment writes to.
#[derive(Debug)]
pub struct HirPlace {
    pub span: Span,
    pub type_: Type,
    pub data: HirPlaceData,
}

#[derive(Debug)]
pub enum HirPlaceData {
    Symbol(SymbolId),
    Index {
        array: SymbolId,
        index: HirExpression,
        array_size: usize,
    },
}

} // verus!
