//! Finding the imports of a module, and the values that loading a program's
//! modules produces.

use vstd::prelude::*;
use crate::ast::{
    Binding, Block, ElseBranch, Expression, ExpressionData, ItemData, Parameter, Program, Statement,
    StatementData, TypeExpression, TypeExpressionData,
};
use crate::source::{SourceId, Span};

verus! {

broadcast use vstd::std_specs::vec::axiom_vec_index_decreases;

/// The import paths in a type, in the order they are written.
pub open spec fn imports_in_type(t: TypeExpression) -> Seq<Span>
    decreases t, 0nat,
{
    match t.data {
        TypeExpressionData::Identifier | TypeExpressionData::Unit => Seq::empty(),
        TypeExpressionData::FixedArray { size, base_type } => imports_in_expression(*size) + imports_in_type(*base_type),
        TypeExpressionData::Function { parameters, return_type } => imports_in_types(parameters@) + imports_in_type(*return_type),
    }
}

/// The import paths in a list of types, in order.
pub open spec fn imports_in_types(ts: Seq<TypeExpression>) -> Seq<Span>
    decreases ts, 1nat,
{
    if ts.len() == 0 {
        Seq::empty()
    } else {
        imports_in_types(ts.subrange(0, ts.len() - 1)) + imports_in_type(ts[ts.len() - 1])
    }
}

/// The import paths in the type annotations of a list of parameters, in order.
pub open spec fn imports_in_parameters(ps: Seq<Parameter>) -> Seq<Span>
    decreases ps, 1nat,
{
    if ps.len() == 0 {
        Seq::empty()
    } else {
        imports_in_parameters(ps.subrange(0, ps.len() - 1)) + imports_in_type(ps[ps.len() - 1].type_annotation)
    }
}

/// The import paths in an expression, in the order they are written.
pub open spec fn imports_in_expression(e: Expression) -> Seq<Span>
    decreases e, 0nat,
{
    match e.data {
        ExpressionData::Import { path } => seq![path],
        ExpressionData::Function(function) =>
            imports_in_parameters(function.comptime_args@) + imports_in_parameters(function.runtime_args@)
                + imports_in_type(function.return_type) + imports_in_block(function.body),
        ExpressionData::TypeValue(t) => imports_in_type(t),
        ExpressionData::Member { base, .. } => imports_in_expression(*base),
        ExpressionData::Unary { operand, .. } => imports_in_expression(*operand),
        ExpressionData::Binary { lhs, rhs, .. } => imports_in_expression(*lhs) + imports_in_expression(*rhs),
        ExpressionData::Call { callee, arguments } => imports_in_expression(*callee) + imports_in_expressions(arguments@),
        ExpressionData::Specialize { callee, arguments } => imports_in_expression(*callee) + imports_in_expressions(arguments@),
        ExpressionData::ArrayRepeatInitialization { value, size } => imports_in_expression(*value) + imports_in_expression(*size),
        ExpressionData::Index { base, index } => imports_in_expression(*base) + imports_in_expression(*index),
        _ => Seq::empty(),
    }
}

/// The import paths in a list of expressions, in order.
pub open spec fn imports_in_expressions(es: Seq<Expression>) -> Seq<Span>
    decreases es, 1nat,
{
    if es.len() == 0 {
        Seq::empty()
    } else {
        imports_in_expressions(es.subrange(0, es.len() - 1)) + imports_in_expression(es[es.len() - 1])
    }
}

/// The import paths in a binding: its annotation, then its expression.
pub open spec fn imports_in_binding(b: Binding) -> Seq<Span>
    decreases b, 0nat,
{
    match b.type_annotation {
        Some(t) => imports_in_type(t) + imports_in_expression(b.expression),
        None => imports_in_expression(b.expression),
    }
}

/// The import paths in a block, in the order they are written.
pub open spec fn imports_in_block(b: Block) -> Seq<Span>
    decreases b, 0nat,
{
    imports_in_statements(b.statements@)
}

/// The import paths in a list of statements, in order.
pub open spec fn imports_in_statements(ss: Seq<Statement>) -> Seq<Span>
    decreases ss, 1nat,
{
    if ss.len() == 0 {
        Seq::empty()
    } else {
        imports_in_statements(ss.subrange(0, ss.len() - 1)) + imports_in_statement(ss[ss.len() - 1])
    }
}

/// The import paths in a statement, in the order they are written.
pub open spec fn imports_in_statement(s: Statement) -> Seq<Span>
    decreases s, 0nat,
{
    match s.data {
        StatementData::Binding(binding) => imports_in_binding(binding),
        StatementData::Return(value) => match value {
            Some(value) => imports_in_expression(value),
            None => Seq::empty(),
        },
        StatementData::Expression(expression) => imports_in_expression(expression),
        StatementData::Assignment { target, expression } => imports_in_expression(target) + imports_in_expression(expression),
        StatementData::While(w) => imports_in_expression(w.condition) + imports_in_block(w.while_block),
        StatementData::If(i) => imports_in_expression(i.condition) + imports_in_block(i.then_block) + match i.else_ {
            Some(ElseBranch::Else(block)) => imports_in_block(block),
            Some(ElseBranch::ElseIf(nested)) => imports_in_statement(*nested),
            None => Seq::empty(),
        },
    }
}

/// The import paths of a program: those of each of its bindings in turn.
pub open spec fn imports_in_program(items: Seq<crate::ast::Item>) -> Seq<Span>
    decreases items.len(),
{
    if items.len() == 0 {
        Seq::empty()
    } else {
        imports_in_program(items.subrange(0, items.len() - 1)) + match items[items.len() - 1].data {
            ItemData::Binding(binding) => imports_in_binding(binding),
        }
    }
}

/// An `@import` of `path` occurs somewhere in the type `t`.
pub open spec fn import_occurs_in_type(t: TypeExpression, path: Span) -> bool
    decreases t, 0nat,
{
    match t.data {
        TypeExpressionData::Identifier | TypeExpressionData::Unit => false,
        TypeExpressionData::FixedArray { size, base_type } =>
            import_occurs_in_expression(*size, path) || import_occurs_in_type(*base_type, path),
        TypeExpressionData::Function { parameters, return_type } =>
            (exists|i: int| 0 <= i < parameters@.len() && import_occurs_in_type(#[trigger] parameters@[i], path))
            || import_occurs_in_type(*return_type, path),
    }
}

/// An `@import` of `path` occurs somewhere in the expression `e`.
pub open spec fn import_occurs_in_expression(e: Expression, path: Span) -> bool
    decreases e, 0nat,
{
    match e.data {
        ExpressionData::Import { path: p } => p == path,
        ExpressionData::Function(function) =>
            (exists|i: int| 0 <= i < function.comptime_args@.len()
                && import_occurs_in_type((#[trigger] function.comptime_args@[i]).type_annotation, path))
            || (exists|i: int| 0 <= i < function.runtime_args@.len()
                && import_occurs_in_type((#[trigger] function.runtime_args@[i]).type_annotation, path))
            || import_occurs_in_type(function.return_type, path)
            || (exists|i: int| 0 <= i < function.body.statements@.len()
                && import_occurs_in_statement(#[trigger] function.body.statements@[i], path)),
        ExpressionData::TypeValue(t) => import_occurs_in_type(t, path),
        ExpressionData::Member { base, .. } => import_occurs_in_expression(*base, path),
        ExpressionData::Unary { operand, .. } => import_occurs_in_expression(*operand, path),
        ExpressionData::Binary { lhs, rhs, .. } => import_occurs_in_expression(*lhs, path) || import_occurs_in_expression(*rhs, path),
        ExpressionData::Call { callee, arguments } =>
            import_occurs_in_expression(*callee, path)
            || (exists|i: int| 0 <= i < arguments@.len() && import_occurs_in_expression(#[trigger] arguments@[i], path)),
        ExpressionData::Specialize { callee, arguments } =>
            import_occurs_in_expression(*callee, path)
            || (exists|i: int| 0 <= i < arguments@.len() && import_occurs_in_expression(#[trigger] arguments@[i], path)),
        ExpressionData::ArrayRepeatInitialization { value, size } =>
            import_occurs_in_expression(*value, path) || import_occurs_in_expression(*size, path),
        ExpressionData::Index { base, index } => import_occurs_in_expression(*base, path) || import_occurs_in_expression(*index, path),
        _ => false,
    }
}

/// An `@import` of `path` occurs somewhere in the statement `s`, in any of
/// its parts: an `if` with both of its branches, a loop with its body.
pub open spec fn import_occurs_in_statement(s: Statement, path: Span) -> bool
    decreases s, 0nat,
{
    match s.data {
        StatementData::Binding(binding) => import_occurs_in_binding(binding, path),
        StatementData::Return(value) => value matches Some(v) && import_occurs_in_expression(v, path),
        StatementData::Expression(expression) => import_occurs_in_expression(expression, path),
        StatementData::Assignment { target, expression } =>
            import_occurs_in_expression(target, path) || import_occurs_in_expression(expression, path),
        StatementData::While(w) => import_occurs_in_expression(w.condition, path)
            || (exists|i: int| 0 <= i < w.while_block.statements@.len()
                && import_occurs_in_statement(#[trigger] w.while_block.statements@[i], path)),
        StatementData::If(i) => import_occurs_in_expression(i.condition, path)
            || (exists|k: int| 0 <= k < i.then_block.statements@.len()
                && import_occurs_in_statement(#[trigger] i.then_block.statements@[k], path))
            || match i.else_ {
                Some(ElseBranch::Else(block)) => exists|k: int| 0 <= k < block.statements@.len()
                    && import_occurs_in_statement(#[trigger] block.statements@[k], path),
                Some(ElseBranch::ElseIf(nested)) => import_occurs_in_statement(*nested, path),
                None => false,
            },
    }
}

/// An `@import` of `path` occurs somewhere in the binding `b`.
pub open spec fn import_occurs_in_binding(b: Binding, path: Span) -> bool
    decreases b, 0nat,
{
    (b.type_annotation matches Some(t) && import_occurs_in_type(t, path)) || import_occurs_in_expression(b.expression, path)
}

/// The result type written in a function literal.
spec fn return_type_of(function: std::rc::Rc<crate::ast::FunctionExpression>) -> TypeExpression {
    function.return_type
}

/// The body of a function literal.
spec fn body_of(function: std::rc::Rc<crate::ast::FunctionExpression>) -> Block {
    function.body
}

/// What one part of a sequence holds, the whole holds.
proof fn lemma_contains_concat(a: Seq<Span>, b: Seq<Span>, x: Span)
    ensures
        a.contains(x) ==> (a + b).contains(x),
        b.contains(x) ==> (a + b).contains(x),
{
    if a.contains(x) {
        let i = choose|i: int| 0 <= i < a.len() && a[i] == x;
        assert((a + b)[i] == x);
    }
    if b.contains(x) {
        let i = choose|i: int| 0 <= i < b.len() && b[i] == x;
        assert((a + b)[a.len() + i] == x);
    }
}

proof fn lemma_type_collected(t: TypeExpression, path: Span)
    requires
        import_occurs_in_type(t, path),
    ensures
        imports_in_type(t).contains(path),
    decreases t, 0nat,
{
    match t.data {
        TypeExpressionData::FixedArray { size, base_type } => {
            if import_occurs_in_expression(*size, path) {
                lemma_expression_collected(*size, path);
            } else {
                lemma_type_collected(*base_type, path);
            }
            lemma_contains_concat(imports_in_expression(*size), imports_in_type(*base_type), path);
        },
        TypeExpressionData::Function { parameters, return_type } => {
            if exists|i: int| 0 <= i < parameters@.len() && import_occurs_in_type(#[trigger] parameters@[i], path) {
                let i = choose|i: int| 0 <= i < parameters@.len() && import_occurs_in_type(#[trigger] parameters@[i], path);
                lemma_types_collected(parameters@, i, path);
            } else {
                lemma_type_collected(*return_type, path);
            }
            lemma_contains_concat(imports_in_types(parameters@), imports_in_type(*return_type), path);
        },
        _ => {},
    }
}

proof fn lemma_types_collected(ts: Seq<TypeExpression>, i: int, path: Span)
    requires
        0 <= i < ts.len(),
        import_occurs_in_type(ts[i], path),
    ensures
        imports_in_types(ts).contains(path),
    decreases ts, 1nat,
{
    let front = ts.subrange(0, ts.len() - 1);
    if i == ts.len() - 1 {
        lemma_type_collected(ts[i], path);
    } else {
        assert(front[i] == ts[i]);
        lemma_types_collected(front, i, path);
    }
    lemma_contains_concat(imports_in_types(front), imports_in_type(ts[ts.len() - 1]), path);
}

proof fn lemma_parameters_collected(ps: Seq<Parameter>, i: int, path: Span)
    requires
        0 <= i < ps.len(),
        import_occurs_in_type(ps[i].type_annotation, path),
    ensures
        imports_in_parameters(ps).contains(path),
    decreases ps, 1nat,
{
    let front = ps.subrange(0, ps.len() - 1);
    if i == ps.len() - 1 {
        lemma_type_collected(ps[i].type_annotation, path);
    } else {
        assert(front[i] == ps[i]);
        lemma_parameters_collected(front, i, path);
    }
    lemma_contains_concat(imports_in_parameters(front), imports_in_type(ps[ps.len() - 1].type_annotation), path);
}

proof fn lemma_expression_collected(e: Expression, path: Span)
    requires
        import_occurs_in_expression(e, path),
    ensures
        imports_in_expression(e).contains(path),
    decreases e, 0nat,
{
    match e.data {
        ExpressionData::Import { path: p } => {
            assert(seq![p][0] == path);
        },
        ExpressionData::Function(function) => {
            let a = imports_in_parameters(function.comptime_args@);
            let b = imports_in_parameters(function.runtime_args@);
            let c = imports_in_type(return_type_of(function));
            let d = imports_in_block(body_of(function));
            if exists|i: int| 0 <= i < function.comptime_args@.len()
                && import_occurs_in_type((#[trigger] function.comptime_args@[i]).type_annotation, path) {
                let i = choose|i: int| 0 <= i < function.comptime_args@.len()
                    && import_occurs_in_type((#[trigger] function.comptime_args@[i]).type_annotation, path);
                lemma_parameters_collected(function.comptime_args@, i, path);
            } else if exists|i: int| 0 <= i < function.runtime_args@.len()
                && import_occurs_in_type((#[trigger] function.runtime_args@[i]).type_annotation, path) {
                let i = choose|i: int| 0 <= i < function.runtime_args@.len()
                    && import_occurs_in_type((#[trigger] function.runtime_args@[i]).type_annotation, path);
                lemma_parameters_collected(function.runtime_args@, i, path);
            } else if import_occurs_in_type(return_type_of(function), path) {
                lemma_type_collected(return_type_of(function), path);
            } else {
                let i = choose|i: int| 0 <= i < function.body.statements@.len()
                    && import_occurs_in_statement(#[trigger] function.body.statements@[i], path);
                lemma_statements_collected(function.body.statements@, i, path);
            }
            lemma_contains_concat(a, b, path);
            lemma_contains_concat(a + b, c, path);
            lemma_contains_concat(a + b + c, d, path);
        },
        ExpressionData::TypeValue(t) => {
            lemma_type_collected(t, path);
        },
        ExpressionData::Member { base, .. } => {
            lemma_expression_collected(*base, path);
        },
        ExpressionData::Unary { operand, .. } => {
            lemma_expression_collected(*operand, path);
        },
        ExpressionData::Binary { lhs, rhs, .. } => {
            if import_occurs_in_expression(*lhs, path) {
                lemma_expression_collected(*lhs, path);
            } else {
                lemma_expression_collected(*rhs, path);
            }
            lemma_contains_concat(imports_in_expression(*lhs), imports_in_expression(*rhs), path);
        },
        ExpressionData::Call { callee, arguments } | ExpressionData::Specialize { callee, arguments } => {
            if import_occurs_in_expression(*callee, path) {
                lemma_expression_collected(*callee, path);
            } else {
                let i = choose|i: int| 0 <= i < arguments@.len() && import_occurs_in_expression(#[trigger] arguments@[i], path);
                lemma_expressions_collected(arguments@, i, path);
            }
            lemma_contains_concat(imports_in_expression(*callee), imports_in_expressions(arguments@), path);
        },
        ExpressionData::ArrayRepeatInitialization { value, size } => {
            if import_occurs_in_expression(*value, path) {
                lemma_expression_collected(*value, path);
            } else {
                lemma_expression_collected(*size, path);
            }
            lemma_contains_concat(imports_in_expression(*value), imports_in_expression(*size), path);
        },
        ExpressionData::Index { base, index } => {
            if import_occurs_in_expression(*base, path) {
                lemma_expression_collected(*base, path);
            } else {
                lemma_expression_collected(*index, path);
            }
            lemma_contains_concat(imports_in_expression(*base), imports_in_expression(*index), path);
        },
        _ => {},
    }
}

proof fn lemma_expressions_collected(es: Seq<Expression>, i: int, path: Span)
    requires
        0 <= i < es.len(),
        import_occurs_in_expression(es[i], path),
    ensures
        imports_in_expressions(es).contains(path),
    decreases es, 1nat,
{
    let front = es.subrange(0, es.len() - 1);
    if i == es.len() - 1 {
        lemma_expression_collected(es[i], path);
    } else {
        assert(front[i] == es[i]);
        lemma_expressions_collected(front, i, path);
    }
    lemma_contains_concat(imports_in_expressions(front), imports_in_expression(es[es.len() - 1]), path);
}

proof fn lemma_binding_collected(b: Binding, path: Span)
    requires
        import_occurs_in_binding(b, path),
    ensures
        imports_in_binding(b).contains(path),
    decreases b, 0nat,
{
    match b.type_annotation {
        Some(t) => {
            if import_occurs_in_type(t, path) {
                lemma_type_collected(t, path);
            } else {
                lemma_expression_collected(b.expression, path);
            }
            lemma_contains_concat(imports_in_type(t), imports_in_expression(b.expression), path);
        },
        None => {
            lemma_expression_collected(b.expression, path);
        },
    }
}

proof fn lemma_statements_collected(ss: Seq<Statement>, i: int, path: Span)
    requires
        0 <= i < ss.len(),
        import_occurs_in_statement(ss[i], path),
    ensures
        imports_in_statements(ss).contains(path),
    decreases ss, 1nat,
{
    let front = ss.subrange(0, ss.len() - 1);
    if i == ss.len() - 1 {
        lemma_statement_collected(ss[i], path);
    } else {
        assert(front[i] == ss[i]);
        lemma_statements_collected(front, i, path);
    }
    lemma_contains_concat(imports_in_statements(front), imports_in_statement(ss[ss.len() - 1]), path);
}

proof fn lemma_statement_collected(s: Statement, path: Span)
    requires
        import_occurs_in_statement(s, path),
    ensures
        imports_in_statement(s).contains(path),
    decreases s, 0nat,
{
    match s.data {
        StatementData::Binding(binding) => {
            lemma_binding_collected(binding, path);
        },
        StatementData::Return(value) => {
            lemma_expression_collected(value->0, path);
        },
        StatementData::Expression(expression) => {
            lemma_expression_collected(expression, path);
        },
        StatementData::Assignment { target, expression } => {
            if import_occurs_in_expression(target, path) {
                lemma_expression_collected(target, path);
            } else {
                lemma_expression_collected(expression, path);
            }
            lemma_contains_concat(imports_in_expression(target), imports_in_expression(expression), path);
        },
        StatementData::While(w) => {
            if import_occurs_in_expression(w.condition, path) {
                lemma_expression_collected(w.condition, path);
            } else {
                let k = choose|k: int| 0 <= k < w.while_block.statements@.len()
                    && import_occurs_in_statement(#[trigger] w.while_block.statements@[k], path);
                lemma_statements_collected(w.while_block.statements@, k, path);
            }
            lemma_contains_concat(imports_in_expression(w.condition), imports_in_block(w.while_block), path);
        },
        StatementData::If(i) => {
            let a = imports_in_expression(i.condition);
            let b = imports_in_block(i.then_block);
            let c = match i.else_ {
                Some(ElseBranch::Else(else_block)) => imports_in_block(else_block),
                Some(ElseBranch::ElseIf(nested)) => imports_in_statement(*nested),
                None => Seq::empty(),
            };
            if import_occurs_in_expression(i.condition, path) {
                lemma_expression_collected(i.condition, path);
            } else if exists|k: int| 0 <= k < i.then_block.statements@.len()
                && import_occurs_in_statement(#[trigger] i.then_block.statements@[k], path) {
                let k = choose|k: int| 0 <= k < i.then_block.statements@.len()
                    && import_occurs_in_statement(#[trigger] i.then_block.statements@[k], path);
                lemma_statements_collected(i.then_block.statements@, k, path);
            } else {
                match i.else_ {
                    Some(ElseBranch::Else(block)) => {
                        let k = choose|k: int| 0 <= k < block.statements@.len()
                            && import_occurs_in_statement(#[trigger] block.statements@[k], path);
                        lemma_statements_collected(block.statements@, k, path);
                    },
                    Some(ElseBranch::ElseIf(nested)) => {
                        lemma_statement_collected(*nested, path);
                    },
                    None => {},
                }
            }
            lemma_contains_concat(a, b, path);
            lemma_contains_concat(a + b, c, path);
        },
    }
}

/// Law: every `@import` that occurs anywhere in a program's bindings, in
/// any part of any expression, type or statement (both branches of an `if`
/// included), is among the imports collected from the program.
pub proof fn law_every_import_is_collected(items: Seq<crate::ast::Item>, k: int, path: Span)
    requires
        0 <= k < items.len(),
        import_occurs_in_binding(items[k].data->Binding_0, path),
    ensures
        imports_in_program(items).contains(path),
    decreases items.len(),
{
    let front = items.subrange(0, items.len() - 1);
    let last = match items[items.len() - 1].data {
        ItemData::Binding(binding) => imports_in_binding(binding),
    };
    if k == items.len() - 1 {
        lemma_binding_collected(items[k].data->Binding_0, path);
    } else {
        assert(front[k] == items[k]);
        law_every_import_is_collected(front, k, path);
    }
    lemma_contains_concat(imports_in_program(front), last, path);
}

/// What the whole of a sequence holds, one of its parts holds.
proof fn lemma_concat_contains(a: Seq<Span>, b: Seq<Span>, x: Span)
    requires
        (a + b).contains(x),
    ensures
        a.contains(x) || b.contains(x),
{
    let i = choose|i: int| 0 <= i < (a + b).len() && (a + b)[i] == x;
    if i < a.len() {
        assert(a[i] == x);
    } else {
        assert(b[i - a.len()] == x);
    }
}

/// A sequence of one path holds only that path.
proof fn lemma_single_contains(p: Span, path: Span)
    requires
        seq![p].contains(path),
    ensures
        p == path,
{
    let i = choose|i: int| 0 <= i < seq![p].len() && seq![p][i] == path;
    assert(seq![p][i] == p);
}

proof fn lemma_type_occurs(t: TypeExpression, path: Span)
    requires
        imports_in_type(t).contains(path),
    ensures
        import_occurs_in_type(t, path),
    decreases t, 0nat,
{
    match t.data {
        TypeExpressionData::FixedArray { size, base_type } => {
            lemma_concat_contains(imports_in_expression(*size), imports_in_type(*base_type), path);
            if imports_in_expression(*size).contains(path) {
                lemma_expression_occurs(*size, path);
            } else {
                lemma_type_occurs(*base_type, path);
            }
        },
        TypeExpressionData::Function { parameters, return_type } => {
            lemma_concat_contains(imports_in_types(parameters@), imports_in_type(*return_type), path);
            if imports_in_types(parameters@).contains(path) {
                let i = lemma_types_occur(parameters@, path);
                assert(import_occurs_in_type(parameters@[i], path));
            } else {
                lemma_type_occurs(*return_type, path);
            }
        },
        _ => {},
    }
}

proof fn lemma_types_occur(ts: Seq<TypeExpression>, path: Span) -> (i: int)
    requires
        imports_in_types(ts).contains(path),
    ensures
        0 <= i < ts.len(),
        import_occurs_in_type(ts[i], path),
    decreases ts, 1nat,
{
    let front = ts.subrange(0, ts.len() - 1);
    lemma_concat_contains(imports_in_types(front), imports_in_type(ts[ts.len() - 1]), path);
    if imports_in_types(front).contains(path) {
        let i = lemma_types_occur(front, path);
        assert(front[i] == ts[i]);
        i
    } else {
        lemma_type_occurs(ts[ts.len() - 1], path);
        ts.len() - 1
    }
}

proof fn lemma_parameters_occur(ps: Seq<Parameter>, path: Span) -> (i: int)
    requires
        imports_in_parameters(ps).contains(path),
    ensures
        0 <= i < ps.len(),
        import_occurs_in_type(ps[i].type_annotation, path),
    decreases ps, 1nat,
{
    let front = ps.subrange(0, ps.len() - 1);
    lemma_concat_contains(imports_in_parameters(front), imports_in_type(ps[ps.len() - 1].type_annotation), path);
    if imports_in_parameters(front).contains(path) {
        let i = lemma_parameters_occur(front, path);
        assert(front[i] == ps[i]);
        i
    } else {
        lemma_type_occurs(ps[ps.len() - 1].type_annotation, path);
        ps.len() - 1
    }
}

proof fn lemma_expression_occurs(e: Expression, path: Span)
    requires
        imports_in_expression(e).contains(path),
    ensures
        import_occurs_in_expression(e, path),
    decreases e, 0nat,
{
    match e.data {
        ExpressionData::Import { path: p } => {
            lemma_single_contains(p, path);
        },
        ExpressionData::Function(function) => {
            let a = imports_in_parameters(function.comptime_args@);
            let b = imports_in_parameters(function.runtime_args@);
            let c = imports_in_type(return_type_of(function));
            let d = imports_in_block(body_of(function));
            lemma_concat_contains(a + b + c, d, path);
            if (a + b + c).contains(path) {
                lemma_concat_contains(a + b, c, path);
                if (a + b).contains(path) {
                    lemma_concat_contains(a, b, path);
                    if a.contains(path) {
                        let i = lemma_parameters_occur(function.comptime_args@, path);
                        assert(import_occurs_in_type(function.comptime_args@[i].type_annotation, path));
                    } else {
                        let i = lemma_parameters_occur(function.runtime_args@, path);
                        assert(import_occurs_in_type(function.runtime_args@[i].type_annotation, path));
                    }
                } else {
                    lemma_type_occurs(return_type_of(function), path);
                }
            } else {
                let i = lemma_statements_occur(function.body.statements@, path);
                assert(import_occurs_in_statement(function.body.statements@[i], path));
            }
        },
        ExpressionData::TypeValue(t) => {
            lemma_type_occurs(t, path);
        },
        ExpressionData::Member { base, .. } => {
            lemma_expression_occurs(*base, path);
        },
        ExpressionData::Unary { operand, .. } => {
            lemma_expression_occurs(*operand, path);
        },
        ExpressionData::Binary { lhs, rhs, .. } => {
            lemma_concat_contains(imports_in_expression(*lhs), imports_in_expression(*rhs), path);
            if imports_in_expression(*lhs).contains(path) {
                lemma_expression_occurs(*lhs, path);
            } else {
                lemma_expression_occurs(*rhs, path);
            }
        },
        ExpressionData::Call { callee, arguments } => {
            lemma_concat_contains(imports_in_expression(*callee), imports_in_expressions(arguments@), path);
            if imports_in_expression(*callee).contains(path) {
                lemma_expression_occurs(*callee, path);
            } else {
                let i = lemma_expressions_occur(arguments@, path);
                assert(import_occurs_in_expression(arguments@[i], path));
            }
        },
        ExpressionData::Specialize { callee, arguments } => {
            lemma_concat_contains(imports_in_expression(*callee), imports_in_expressions(arguments@), path);
            if imports_in_expression(*callee).contains(path) {
                lemma_expression_occurs(*callee, path);
            } else {
                let i = lemma_expressions_occur(arguments@, path);
                assert(import_occurs_in_expression(arguments@[i], path));
            }
        },
        ExpressionData::ArrayRepeatInitialization { value, size } => {
            lemma_concat_contains(imports_in_expression(*value), imports_in_expression(*size), path);
            if imports_in_expression(*value).contains(path) {
                lemma_expression_occurs(*value, path);
            } else {
                lemma_expression_occurs(*size, path);
            }
        },
        ExpressionData::Index { base, index } => {
            lemma_concat_contains(imports_in_expression(*base), imports_in_expression(*index), path);
            if imports_in_expression(*base).contains(path) {
                lemma_expression_occurs(*base, path);
            } else {
                lemma_expression_occurs(*index, path);
            }
        },
        _ => {
            assert(imports_in_expression(e) =~= Seq::<Span>::empty());
        },
    }
}

proof fn lemma_expressions_occur(es: Seq<Expression>, path: Span) -> (i: int)
    requires
        imports_in_expressions(es).contains(path),
    ensures
        0 <= i < es.len(),
        import_occurs_in_expression(es[i], path),
    decreases es, 1nat,
{
    let front = es.subrange(0, es.len() - 1);
    lemma_concat_contains(imports_in_expressions(front), imports_in_expression(es[es.len() - 1]), path);
    if imports_in_expressions(front).contains(path) {
        let i = lemma_expressions_occur(front, path);
        assert(front[i] == es[i]);
        i
    } else {
        lemma_expression_occurs(es[es.len() - 1], path);
        es.len() - 1
    }
}

proof fn lemma_binding_occurs(b: Binding, path: Span)
    requires
        imports_in_binding(b).contains(path),
    ensures
        import_occurs_in_binding(b, path),
    decreases b, 0nat,
{
    match b.type_annotation {
        Some(t) => {
            lemma_concat_contains(imports_in_type(t), imports_in_expression(b.expression), path);
            if imports_in_type(t).contains(path) {
                lemma_type_occurs(t, path);
            } else {
                lemma_expression_occurs(b.expression, path);
            }
        },
        None => {
            lemma_expression_occurs(b.expression, path);
        },
    }
}

proof fn lemma_statements_occur(ss: Seq<Statement>, path: Span) -> (i: int)
    requires
        imports_in_statements(ss).contains(path),
    ensures
        0 <= i < ss.len(),
        import_occurs_in_statement(ss[i], path),
    decreases ss, 1nat,
{
    let front = ss.subrange(0, ss.len() - 1);
    lemma_concat_contains(imports_in_statements(front), imports_in_statement(ss[ss.len() - 1]), path);
    if imports_in_statements(front).contains(path) {
        let i = lemma_statements_occur(front, path);
        assert(front[i] == ss[i]);
        i
    } else {
        lemma_statement_occurs(ss[ss.len() - 1], path);
        ss.len() - 1
    }
}

proof fn lemma_statement_occurs(s: Statement, path: Span)
    requires
        imports_in_statement(s).contains(path),
    ensures
        import_occurs_in_statement(s, path),
    decreases s, 0nat,
{
    match s.data {
        StatementData::Binding(binding) => {
            lemma_binding_occurs(binding, path);
        },
        StatementData::Return(value) => {
            match value {
                Some(v) => lemma_expression_occurs(v, path),
                None => {},
            }
        },
        StatementData::Expression(expression) => {
            lemma_expression_occurs(expression, path);
        },
        StatementData::Assignment { target, expression } => {
            lemma_concat_contains(imports_in_expression(target), imports_in_expression(expression), path);
            if imports_in_expression(target).contains(path) {
                lemma_expression_occurs(target, path);
            } else {
                lemma_expression_occurs(expression, path);
            }
        },
        StatementData::While(w) => {
            lemma_concat_contains(imports_in_expression(w.condition), imports_in_block(w.while_block), path);
            if imports_in_expression(w.condition).contains(path) {
                lemma_expression_occurs(w.condition, path);
            } else {
                let k = lemma_statements_occur(w.while_block.statements@, path);
                assert(import_occurs_in_statement(w.while_block.statements@[k], path));
            }
        },
        StatementData::If(i) => {
            let a = imports_in_expression(i.condition);
            let b = imports_in_block(i.then_block);
            let c = match i.else_ {
                Some(ElseBranch::Else(else_block)) => imports_in_block(else_block),
                Some(ElseBranch::ElseIf(nested)) => imports_in_statement(*nested),
                None => Seq::empty(),
            };
            lemma_concat_contains(a + b, c, path);
            if (a + b).contains(path) {
                lemma_concat_contains(a, b, path);
                if a.contains(path) {
                    lemma_expression_occurs(i.condition, path);
                } else {
                    let k = lemma_statements_occur(i.then_block.statements@, path);
                    assert(import_occurs_in_statement(i.then_block.statements@[k], path));
                }
            } else {
                match i.else_ {
                    Some(ElseBranch::Else(else_block)) => {
                        let k = lemma_statements_occur(else_block.statements@, path);
                        assert(import_occurs_in_statement(else_block.statements@[k], path));
                    },
                    Some(ElseBranch::ElseIf(nested)) => {
                        lemma_statement_occurs(*nested, path);
                    },
                    None => {},
                }
            }
        },
    }
}

/// Law: the imports collected from a program are exactly the `@import`s
/// that occur in its bindings: each collected path occurs in some binding,
/// and each one that occurs is collected.
pub proof fn law_collected_imports_are_those_that_occur(items: Seq<crate::ast::Item>, path: Span)
    ensures
        imports_in_program(items).contains(path) <==> exists|k: int|
            0 <= k < items.len() && import_occurs_in_binding((#[trigger] items[k]).data->Binding_0, path),
    decreases items.len(),
{
    if items.len() > 0 {
        let front = items.subrange(0, items.len() - 1);
        let last_binding = items[items.len() - 1].data->Binding_0;
        assert(imports_in_program(items) == imports_in_program(front) + imports_in_binding(last_binding));
        law_collected_imports_are_those_that_occur(front, path);
        if imports_in_program(items).contains(path) {
            lemma_concat_contains(imports_in_program(front), imports_in_binding(last_binding), path);
            if imports_in_program(front).contains(path) {
                let k = choose|k: int| 0 <= k < front.len() && import_occurs_in_binding((#[trigger] front[k]).data->Binding_0, path);
                assert(front[k] == items[k]);
            } else {
                lemma_binding_occurs(last_binding, path);
                assert(import_occurs_in_binding(items[items.len() - 1].data->Binding_0, path));
            }
        }
        if exists|k: int| 0 <= k < items.len() && import_occurs_in_binding((#[trigger] items[k]).data->Binding_0, path) {
            let k = choose|k: int| 0 <= k < items.len() && import_occurs_in_binding((#[trigger] items[k]).data->Binding_0, path);
            law_every_import_is_collected(items, k, path);
        }
    }
}

/// The spans of the path literals of all imports in `program`, in the order
/// they are written, nested ones included.
pub fn collect_imports(program: &Program) -> (imports: Vec<Span>)
    ensures
        imports@ == imports_in_program(program.items@),
{
    let mut imports: Vec<Span> = Vec::new();
    let mut i: usize = 0;
    while i < program.items.len()
        invariant
            i <= program.items@.len(),
            imports@ == imports_in_program(program.items@.subrange(0, i as int)),
        decreases program.items@.len() - i,
    {
        let ItemData::Binding(binding) = &program.items[i].data;
        visit_binding(binding, &mut imports);
        proof {
            assert(program.items@.subrange(0, i as int + 1).subrange(0, i as int) =~= program.items@.subrange(0, i as int));
        }
        i += 1;
    }
    proof {
        assert(program.items@.subrange(0, i as int) =~= program.items@);
    }
    imports
}

/// Adds the import paths of a binding.
pub fn visit_binding(binding: &Binding, imports: &mut Vec<Span>)
    ensures
        final(imports)@ == old(imports)@ + imports_in_binding(*binding),
    decreases binding, 2nat,
{
    match &binding.type_annotation {
        Some(annotation) => visit_type(annotation, imports),
        None => {},
    }
    visit_expression(&binding.expression, imports);
    proof {
        if binding.type_annotation is Some {
            let t = binding.type_annotation->0;
            assert(final(imports)@ =~= old(imports)@ + (imports_in_type(t) + imports_in_expression(binding.expression)));
        }
    }
}

/// Adds the import paths of a type.
pub fn visit_type(type_: &TypeExpression, imports: &mut Vec<Span>)
    ensures
        final(imports)@ == old(imports)@ + imports_in_type(*type_),
    decreases type_, 2nat,
{
    match &type_.data {
        TypeExpressionData::Identifier | TypeExpressionData::Unit => {
            assert(old(imports)@ + imports_in_type(*type_) =~= old(imports)@);
        },
        TypeExpressionData::FixedArray { size, base_type } => {
            visit_expression(size, imports);
            visit_type(base_type, imports);
            assert(final(imports)@ =~= old(imports)@ + (imports_in_expression(**size) + imports_in_type(**base_type)));
        },
        TypeExpressionData::Function { parameters, return_type } => {
            let ghost start = imports@;
            let mut i: usize = 0;
            while i < parameters.len()
                invariant
                    i <= parameters@.len(),
                    imports@ == start + imports_in_types(parameters@.subrange(0, i as int)),
                    type_.data == (TypeExpressionData::Function { parameters: *parameters, return_type: *return_type }),
                decreases parameters@.len() - i,
            {
                proof {
                    assert(decreases_to!(*type_ => type_.data));
                    assert(decreases_to!(type_.data => type_.data->Function_parameters));
                    assert(type_.data->Function_parameters == *parameters);
                    assert(decreases_to!(*parameters => parameters@));
                    assert(decreases_to!(parameters@ => parameters@[i as int]));
                }
                visit_type(&parameters[i], imports);
                proof {
                    assert(parameters@.subrange(0, i as int + 1).subrange(0, i as int) =~= parameters@.subrange(0, i as int));
                    assert(imports@ =~= start + imports_in_types(parameters@.subrange(0, i as int + 1)));
                }
                i += 1;
            }
            visit_type(return_type, imports);
            proof {
                assert(parameters@.subrange(0, i as int) =~= parameters@);
                assert(final(imports)@ =~= old(imports)@ + (imports_in_types(parameters@) + imports_in_type(**return_type)));
            }
        },
    }
}

/// Adds the import paths of the type annotations of `parameters`.
fn visit_parameters(parameters: &Vec<Parameter>, imports: &mut Vec<Span>)
    ensures
        final(imports)@ == old(imports)@ + imports_in_parameters(parameters@),
    decreases parameters, 2nat,
{
    let ghost start = imports@;
    let mut i: usize = 0;
    while i < parameters.len()
        invariant
            i <= parameters@.len(),
            imports@ == start + imports_in_parameters(parameters@.subrange(0, i as int)),
        decreases parameters@.len() - i,
    {
        proof {
            assert(decreases_to!(*parameters => parameters@));
            assert(decreases_to!(parameters@ => parameters@[i as int]));
            assert(decreases_to!(parameters@[i as int] => parameters@[i as int].type_annotation));
        }
        visit_type(&parameters[i].type_annotation, imports);
        proof {
            assert(parameters@.subrange(0, i as int + 1).subrange(0, i as int) =~= parameters@.subrange(0, i as int));
            assert(imports@ =~= start + imports_in_parameters(parameters@.subrange(0, i as int + 1)));
        }
        i += 1;
    }
    proof {
        assert(parameters@.subrange(0, i as int) =~= parameters@);
    }
}

/// Adds the import paths of each of `expressions`, in order.
fn visit_expressions(expressions: &Vec<Expression>, imports: &mut Vec<Span>)
    ensures
        final(imports)@ == old(imports)@ + imports_in_expressions(expressions@),
    decreases expressions, 2nat,
{
    let ghost start = imports@;
    let mut i: usize = 0;
    while i < expressions.len()
        invariant
            i <= expressions@.len(),
            imports@ == start + imports_in_expressions(expressions@.subrange(0, i as int)),
        decreases expressions@.len() - i,
    {
        proof {
            assert(decreases_to!(*expressions => expressions@));
            assert(decreases_to!(expressions@ => expressions@[i as int]));
        }
        visit_expression(&expressions[i], imports);
        proof {
            assert(expressions@.subrange(0, i as int + 1).subrange(0, i as int) =~= expressions@.subrange(0, i as int));
            assert(imports@ =~= start + imports_in_expressions(expressions@.subrange(0, i as int + 1)));
        }
        i += 1;
    }
    proof {
        assert(expressions@.subrange(0, i as int) =~= expressions@);
    }
}

/// Adds the import paths of an expression.
pub fn visit_expression(expression: &Expression, imports: &mut Vec<Span>)
    ensures
        final(imports)@ == old(imports)@ + imports_in_expression(*expression),
    decreases expression, 2nat,
{
    match &expression.data {
        ExpressionData::Import { path } => {
            imports.push(*path);
            assert(final(imports)@ =~= old(imports)@ + seq![*path]);
        },
        ExpressionData::Function(function) => {
            visit_parameters(&function.comptime_args, imports);
            visit_parameters(&function.runtime_args, imports);
            visit_type(&function.return_type, imports);
            visit_block(&function.body, imports);
            assert(final(imports)@ =~= old(imports)@ + imports_in_expression(*expression));
        },
        ExpressionData::TypeValue(type_) => visit_type(type_, imports),
        ExpressionData::Member { base, .. } => visit_expression(base, imports),
        ExpressionData::Unary { operand, .. } => visit_expression(operand, imports),
        ExpressionData::Binary { lhs, rhs, .. } => {
            visit_expression(lhs, imports);
            visit_expression(rhs, imports);
            assert(final(imports)@ =~= old(imports)@ + imports_in_expression(*expression));
        },
        ExpressionData::Call { callee, arguments } => {
            visit_expression(callee, imports);
            visit_expressions(arguments, imports);
            assert(final(imports)@ =~= old(imports)@ + imports_in_expression(*expression));
        },
        ExpressionData::Specialize { callee, arguments } => {
            visit_expression(callee, imports);
            visit_expressions(arguments, imports);
            assert(final(imports)@ =~= old(imports)@ + imports_in_expression(*expression));
        },
        ExpressionData::ArrayRepeatInitialization { value, size } => {
            visit_expression(value, imports);
            visit_expression(size, imports);
            assert(final(imports)@ =~= old(imports)@ + imports_in_expression(*expression));
        },
        ExpressionData::Index { base, index } => {
            visit_expression(base, imports);
            visit_expression(index, imports);
            assert(final(imports)@ =~= old(imports)@ + imports_in_expression(*expression));
        },
        _ => {
            assert(old(imports)@ + imports_in_expression(*expression) =~= old(imports)@);
        },
    }
}

/// Adds the import paths of a block.
pub fn visit_block(block: &Block, imports: &mut Vec<Span>)
    ensures
        final(imports)@ == old(imports)@ + imports_in_block(*block),
    decreases block, 2nat,
{
    let ghost start = imports@;
    let mut i: usize = 0;
    while i < block.statements.len()
        invariant
            i <= block.statements@.len(),
            imports@ == start + imports_in_statements(block.statements@.subrange(0, i as int)),
        decreases block.statements@.len() - i,
    {
        proof {
            assert(decreases_to!(*block => block.statements));
            assert(decreases_to!(block.statements => block.statements@));
            assert(decreases_to!(block.statements@ => block.statements@[i as int]));
        }
        visit_statement(&block.statements[i], imports);
        proof {
            assert(block.statements@.subrange(0, i as int + 1).subrange(0, i as int) =~= block.statements@.subrange(0, i as int));
            assert(imports@ =~= start + imports_in_statements(block.statements@.subrange(0, i as int + 1)));
        }
        i += 1;
    }
    proof {
        assert(block.statements@.subrange(0, i as int) =~= block.statements@);
    }
}

/// Adds the import paths of a statement.
pub fn visit_statement(statement: &Statement, imports: &mut Vec<Span>)
    ensures
        final(imports)@ == old(imports)@ + imports_in_statement(*statement),
    decreases statement, 2nat,
{
    match &statement.data {
        StatementData::Binding(binding) => visit_binding(binding, imports),
        StatementData::Return(value) => {
            match value {
                Some(value) => visit_expression(value, imports),
                None => {
                    assert(old(imports)@ + imports_in_statement(*statement) =~= old(imports)@);
                },
            }
        },
        StatementData::Expression(expression) => visit_expression(expression, imports),
        StatementData::Assignment { target, expression } => {
            visit_expression(target, imports);
            visit_expression(expression, imports);
            assert(final(imports)@ =~= old(imports)@ + imports_in_statement(*statement));
        },
        StatementData::While(while_statement) => {
            visit_expression(&while_statement.condition, imports);
            visit_block(&while_statement.while_block, imports);
            assert(final(imports)@ =~= old(imports)@ + imports_in_statement(*statement));
        },
        StatementData::If(if_statement) => {
            visit_expression(&if_statement.condition, imports);
            visit_block(&if_statement.then_block, imports);
            match &if_statement.else_ {
                Some(ElseBranch::Else(block)) => visit_block(block, imports),
                Some(ElseBranch::ElseIf(nested)) => visit_statement(nested, imports),
                None => {},
            }
            assert(final(imports)@ =~= old(imports)@ + imports_in_statement(*statement));
        },
    }
}

/// The path that an import's string literal names: the text between its quotes.
pub open spec fn literal_contents(literal: Seq<char>) -> Seq<char> {
    literal.subrange(1, literal.len() - 1)
}

/// Whether an import path is relative to the importing file: it starts with
/// `./` or `../`.
pub open spec fn is_relative_path(path: Seq<char>) -> bool {
    (path.len() >= 2 && path[0] == '.' && path[1] == '/')
        || (path.len() >= 3 && path[0] == '.' && path[1] == '.' && path[2] == '/')
}

/// The path named by the string literal of an import, when it is relative
/// to the importing file; `None` for any other path, which is not supported.
pub fn relative_import_path(literal: &Vec<char>) -> (path: Option<Vec<char>>)
    requires
        literal@.len() >= 2,
        literal@[0] == '"',
        literal@[literal@.len() - 1] == '"',
    ensures
        match path {
            Some(p) => p@ == literal_contents(literal@) && is_relative_path(p@),
            None => !is_relative_path(literal_contents(literal@)),
        },
{
    let mut contents: Vec<char> = Vec::new();
    let mut i: usize = 1;
    while i < literal.len() - 1
        invariant
            1 <= i <= literal@.len() - 1,
            contents@ == literal@.subrange(1, i as int),
        decreases literal@.len() - 1 - i,
    {
        contents.push(literal[i]);
        i += 1;
    }
    let n = contents.len();
    let relative = (n >= 2 && contents[0] == '.' && contents[1] == '/')
        || (n >= 3 && contents[0] == '.' && contents[1] == '.' && contents[2] == '/');
    if relative {
        Some(contents)
    } else {
        None
    }
}

/// A module that was loaded: its file and its parsed program.
pub struct LoadedModule {
    pub source: SourceId,
    pub program: Program,
}

/// An import and the file it resolved to.
pub struct ResolvedImport {
    pub path: Span,
    pub target: SourceId,
}

/// The modules of a program, each after the modules it imports, and its imports.
pub struct LoadedProgram {
    pub modules: Vec<LoadedModule>,
    pub imports: Vec<ResolvedImport>,
}

/// Where the loading of a file stands.
#[derive(Clone, Copy, PartialEq, Eq, Structural)]
pub enum LoadState {
    Loading,
    Loaded,
}

} // verus!
