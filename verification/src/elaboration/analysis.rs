//! Name resolution and type checking of expressions, statements and types.

use vstd::prelude::*;
use super::{Elaborator, text_at};
use super::evaluation::is_arithmetic;
use crate::ast::{
    BinaryOperator, Binding, Block, ElseBranch, Expression, ExpressionData, FunctionExpression,
    Parameter, Phase, Statement, StatementData, TypeExpression, TypeExpressionData, UnaryOperator,
};
use crate::comptime::{ComptimeFunction, ComptimeValue, FunctionId, FunctionTemplate, FunctionTemplateId, value_eq};
use crate::diagnostics::{Diagnostic, Label, error_str};
use crate::hir::{
    HirBinding, HirBlock, HirElseBranch, HirExpression, HirExpressionData, HirFunctionExpression,
    HirParameter, HirPlace, HirPlaceData, HirStatement, HirStatementData, lemma_function_refs_grow,
};
use crate::source::{SourceFileManager, Span};
use crate::symbols::{ExternAbi, Symbol, SymbolId, SymbolKind, lemma_lookup_after_define, lemma_lookup_gives_named_symbol, lookup_from_spec};
use crate::text::{decimal_text, join, type_debug_text, value_debug_text};
use crate::types::{ComptimeKey, IntegerType, integer_type_name, SpecializationKey, TargetInfo, Type, specialization_key_eq, spec_is_signed, spec_maximum, spec_minimum, type_eq, lemma_type_eq_symmetric, lemma_type_eq_transitive};
use crate::util::share;
use std::rc::Rc;

verus! {

broadcast use {vstd::std_specs::hash::group_hash_axioms, vstd::std_specs::vec::axiom_vec_index_decreases};

/// The parts of an integer literal: its digits' value and its type suffix.
#[derive(Debug, Clone, Copy, PartialEq, Eq, Structural)]
pub struct ParsedIntegerLiteral {
    pub magnitude: u64,
    pub suffix: Option<IntegerType>,
}

/// The integer type that a literal suffix names, if any.
pub open spec fn suffix_type(suffix: Seq<char>) -> Option<IntegerType> {
    if suffix == seq!['u', '8'] { Some(IntegerType::U8) }
    else if suffix == seq!['i', '8'] { Some(IntegerType::I8) }
    else if suffix == seq!['u', '1', '6'] { Some(IntegerType::U16) }
    else if suffix == seq!['i', '1', '6'] { Some(IntegerType::I16) }
    else if suffix == seq!['u', '3', '2'] { Some(IntegerType::U32) }
    else if suffix == seq!['i', '3', '2'] { Some(IntegerType::I32) }
    else if suffix == seq!['u', '6', '4'] { Some(IntegerType::U64) }
    else if suffix == seq!['i', '6', '4'] { Some(IntegerType::I64) }
    else if suffix == seq!['u', 's', 'i', 'z', 'e'] { Some(IntegerType::Usize) }
    else if suffix == seq!['i', 's', 'i', 'z', 'e'] { Some(IntegerType::Isize) }
    else { None }
}

/// Law: a literal suffix spelled as an integer type's name reads as that
/// type, and a suffix that reads as a type is spelled as that type's name.
pub proof fn law_suffix_names_its_type(t: IntegerType, suffix: Seq<char>)
    ensures
        suffix_type(integer_type_name(t)) == Some(t),
        suffix_type(suffix) == Some(t) ==> suffix == integer_type_name(t),
{
    reveal_strlit("u8");
    reveal_strlit("i8");
    reveal_strlit("u16");
    reveal_strlit("i16");
    reveal_strlit("u32");
    reveal_strlit("i32");
    reveal_strlit("u64");
    reveal_strlit("i64");
    reveal_strlit("usize");
    reveal_strlit("isize");
    assert("u8"@ =~= seq!['u', '8']);
    assert("i8"@ =~= seq!['i', '8']);
    assert("u16"@ =~= seq!['u', '1', '6']);
    assert("i16"@ =~= seq!['i', '1', '6']);
    assert("u32"@ =~= seq!['u', '3', '2']);
    assert("i32"@ =~= seq!['i', '3', '2']);
    assert("u64"@ =~= seq!['u', '6', '4']);
    assert("i64"@ =~= seq!['i', '6', '4']);
    assert("usize"@ =~= seq!['u', 's', 'i', 'z', 'e']);
    assert("isize"@ =~= seq!['i', 's', 'i', 'z', 'e']);
}

/// The value of a run of decimal digits.
pub open spec fn digits_value(digits: Seq<char>) -> int
    decreases digits.len(),
{
    if digits.len() == 0 {
        0
    } else {
        digits_value(digits.drop_last()) * 10 + (digits.last() as int - '0' as int)
    }
}

/// Where the leading run of ASCII digits of `text` ends.
pub open spec fn digits_end(text: Seq<char>) -> int {
    if exists|i: int| 0 <= i < text.len() && !('0' <= #[trigger] text[i] <= '9') {
        choose|i: int| 0 <= i < text.len() && !('0' <= #[trigger] text[i] <= '9')
            && forall|j: int| 0 <= j < i ==> '0' <= #[trigger] text[j] <= '9'
    } else {
        text.len() as int
    }
}

/// What reading an integer literal gives: its digits' value and its suffix,
/// or nothing when the digits are empty or overflow 64 bits, or the suffix is
/// not an integer type.
pub open spec fn integer_literal(text: Seq<char>) -> Option<ParsedIntegerLiteral> {
    let end = digits_end(text);
    let digits = text.subrange(0, end);
    let suffix = text.subrange(end, text.len() as int);
    if digits.len() == 0 || digits_value(digits) > u64::MAX {
        None
    } else if suffix.len() == 0 {
        Some(ParsedIntegerLiteral { magnitude: digits_value(digits) as u64, suffix: None })
    } else {
        match suffix_type(suffix) {
            Some(t) => Some(ParsedIntegerLiteral { magnitude: digits_value(digits) as u64, suffix: Some(t) }),
            None => None,
        }
    }
}

/// Whether elaboration checks an expression of this kind against the type
/// it is expected to have. Function literals, specializations, array
/// initializers and the forms that are not values are not checked.
pub open spec fn checked_against_expected(data: ExpressionData) -> bool {
    match data {
        ExpressionData::Function(_) => false,
        ExpressionData::Specialize { .. } => false,
        ExpressionData::ArrayRepeatInitialization { .. } => false,
        ExpressionData::Intrinsic { .. } => false,
        ExpressionData::Import { .. } => false,
        ExpressionData::Member { .. } => false,
        _ => true,
    }
}

/// How an elaborated statement is typed against its context: it keeps the
/// kind of the statement it came from (or is an error), a statement
/// expression has type `unit`, an assigned value the type of its target, a
/// condition type `bool`, and a returned value the function's return type;
/// each as far as the expression's kind is checked against an expected type.
pub open spec fn statement_typed(statement: Statement, result: HirStatement, return_type: Type) -> bool {
    match result.data {
        HirStatementData::Error => true,
        HirStatementData::Expression(h) => match statement.data {
            StatementData::Expression(e) => checked_against_expected(e.data) ==> meets_expected(h.type_, Some(&Type::Unit)),
            _ => false,
        },
        HirStatementData::Assignment { target, expression: h } => match statement.data {
            StatementData::Assignment { expression: e, .. } =>
                checked_against_expected(e.data) ==> meets_expected(h.type_, Some(&target.type_)),
            _ => false,
        },
        HirStatementData::While { condition, .. } => match statement.data {
            StatementData::While(w) => checked_against_expected(w.condition.data) ==> meets_expected(condition.type_, Some(&Type::Bool)),
            _ => false,
        },
        HirStatementData::If { condition, else_branch, .. } => match statement.data {
            StatementData::If(i) => {
                &&& checked_against_expected(i.condition.data) ==> meets_expected(condition.type_, Some(&Type::Bool))
                &&& match (i.else_, else_branch) {
                    (None, None) => true,
                    (Some(ElseBranch::Else(_)), Some(HirElseBranch::Else(_))) => true,
                    (Some(ElseBranch::ElseIf(_)), Some(HirElseBranch::ElseIf(_))) => true,
                    _ => false,
                }
            },
            _ => false,
        },
        HirStatementData::Return(None) => statement.data == StatementData::Return(None),
        HirStatementData::Return(Some(h)) => match statement.data {
            StatementData::Return(Some(e)) => checked_against_expected(e.data) ==> meets_expected(h.type_, Some(&return_type)),
            _ => false,
        },
        HirStatementData::Binding { .. } => statement.data is Binding,
    }
}

/// The type that a type name written at `span` stands for: the built-in
/// type that the name is bound to, else the error type.
pub open spec fn resolves_type(elaborator: Elaborator, span: Span, result: Type) -> bool {
    match lookup_from_spec(elaborator.environment@.scopes, elaborator.environment@.current, text_at(elaborator.sources, span)) {
        Some(symbol) => symbol.0 < elaborator.symbols.symbols@.len() && match elaborator.symbols.symbols@[symbol.0 as int].kind {
            SymbolKind::BuiltinType(t) => type_eq(result, t),
            _ => result is Error,
        },
        None => result is Error,
    }
}

/// The message with which the type name at `span` is refused, if it is: a
/// name bound nowhere, or bound to something other than a type.
pub open spec fn type_name_failure(elaborator: Elaborator, span: Span) -> Option<Seq<char>> {
    match lookup_from_spec(elaborator.environment@.scopes, elaborator.environment@.current, text_at(elaborator.sources, span)) {
        Some(symbol) => if symbol.0 < elaborator.symbols.symbols@.len() && elaborator.symbols.symbols@[symbol.0 as int].kind is BuiltinType {
            None
        } else {
            Some("Expected a Type found a Value"@)
        },
        None => Some("Unknown Type"@),
    }
}

/// Neither the result type nor any parameter type of `function` is the
/// error type.
pub open spec fn fully_typed(function: ComptimeFunction) -> bool {
    &&& !(function.hir.return_type is Error)
    &&& forall|p: int| 0 <= p < function.hir.parameters@.len() ==> !((#[trigger] function.hir.parameters@[p]).type_ is Error)
}

/// The name at `span` stands, from the current scope, for the built-in
/// type `t`.
pub open spec fn names_builtin(elaborator: Elaborator, span: Span, t: Type) -> bool {
    match lookup_from_spec(elaborator.environment@.scopes, elaborator.environment@.current, text_at(elaborator.sources, span)) {
        Some(symbol) => symbol.0 < elaborator.symbols.symbols@.len()
            && elaborator.symbols.symbols@[symbol.0 as int].kind == SymbolKind::BuiltinType(t),
        None => false,
    }
}

/// A `comp` binding, written without a type, of an integer literal that
/// fits the literal's type.
pub open spec fn literal_binding(binding: Binding, sources: &SourceFileManager, target: TargetInfo) -> bool {
    &&& binding.phase == Phase::Comptime
    &&& binding.type_annotation is None
    &&& binding.expression.data is IntegerLiteral
    &&& integer_literal(text_at(sources, binding.expression.span)) matches Some(literal)
        && literal.magnitude <= spec_maximum(literal_type(literal.suffix, None), target)
}

/// A type written as `()` or as the name of a built-in type.
pub open spec fn clean_type_name(elaborator: Elaborator, t: TypeExpression) -> bool {
    t.data is Unit || (t.data is Identifier && type_name_failure(elaborator, t.span) is None)
}

/// A function type whose parameter and result types are all written as
/// `()` or as names of built-in types.
pub open spec fn clean_function_type(elaborator: Elaborator, t: TypeExpression) -> bool {
    t.data matches TypeExpressionData::Function { parameters, return_type }
        && (forall|i: int| 0 <= i < parameters@.len() ==> clean_type_name(elaborator, #[trigger] parameters@[i]))
        && clean_type_name(elaborator, *return_type)
}

/// A type value written as `()` or as a function type over names of
/// built-in types.
pub open spec fn clean_type_value(elaborator: Elaborator, t: TypeExpression) -> bool {
    t.data is Unit || clean_function_type(elaborator, t)
}

/// The steps that resolving such a type value takes, at most.
pub open spec fn type_value_steps(t: TypeExpression) -> nat {
    match t.data {
        TypeExpressionData::Function { parameters, .. } => parameters@.len() + 2,
        _ => 1,
    }
}

/// `entry` holds a value that is the same as the `k`-th of `values`.
pub open spec fn captured_as(entry: (SymbolId, ComptimeValue), values: Seq<ComptimeValue>, k: int) -> bool {
    value_eq(entry.1, values[k])
}

/// Each value that `function` captures is one of `values`, the values given
/// for its compile-time parameters.
pub open spec fn binds_given_values(function: ComptimeFunction, values: Seq<ComptimeValue>) -> bool {
    forall|j: int| 0 <= j < function.captures@.len() ==> captured_from(#[trigger] function.captures@[j], values)
}

/// `entry` holds a value that is the same as one of `values`.
pub open spec fn captured_from(entry: (SymbolId, ComptimeValue), values: Seq<ComptimeValue>) -> bool {
    exists|k: int| 0 <= k < values.len() && captured_as(entry, values, k)
}

/// The first specialization of `template` without compile-time arguments
/// among `cached`, if there is one.
pub open spec fn first_cached(cached: Seq<(SpecializationKey, FunctionId)>, template: FunctionTemplateId) -> Option<int> {
    first_cached_from(cached, template, 0)
}

/// The first specialization of `template` without compile-time arguments
/// among `cached` at `i` or later, if there is one.
pub open spec fn first_cached_from(cached: Seq<(SpecializationKey, FunctionId)>, template: FunctionTemplateId, i: int) -> Option<int>
    decreases cached.len() - i,
{
    if i < 0 || i >= cached.len() {
        None
    } else if cached[i].0.template == template && cached[i].0.arguments@.len() == 0 {
        Some(i)
    } else {
        first_cached_from(cached, template, i + 1)
    }
}

/// The symbol kind is an external function of the calling convention
/// `abi`, linked as `link_name`.
pub open spec fn extern_named(kind: SymbolKind, abi: ExternAbi, link_name: Seq<char>) -> bool {
    match kind {
        SymbolKind::ExternFunction { abi: a, link_name: l } => a == abi && l@ == link_name,
        _ => false,
    }
}

/// The types that an expression of an unchecked kind can elaborate to.
pub open spec fn unchecked_result_type(t: Type) -> bool {
    t is Function || t is FunctionTemplate || t is FixedArray || t is Error
}

/// An elaborated type meets the expected one: when a type other than the
/// error type is expected and the result is not an error, they are the same type.
pub open spec fn meets_expected(result: Type, expected: Option<&Type>) -> bool {
    match expected {
        Some(t) => !(*t is Error) && !(result is Error) ==> type_eq(*t, result),
        None => true,
    }
}

/// How a binary expression is typed: both operands have the same type; an
/// arithmetic operator or an ordering needs integers and an arithmetic result
/// has the operands' type, while a comparison gives `bool`.
pub open spec fn binary_typed(result: HirExpression, operator: BinaryOperator) -> bool {
    match result.data {
        HirExpressionData::Binary { lhs, operator: op, rhs } => {
            &&& op == operator
            &&& type_eq(lhs.type_, rhs.type_)
            &&& !(operator is Equal || operator is NotEqual) ==> lhs.type_ is Integer
            &&& is_arithmetic(operator) ==> type_eq(result.type_, lhs.type_)
            &&& !is_arithmetic(operator) ==> result.type_ is Bool
        },
        HirExpressionData::Error => true,
        _ => false,
    }
}

/// How a negation is typed: its operand is a signed integer and it has the
/// operand's type; a negated literal is folded into a negative literal.
pub open spec fn unary_typed(result: HirExpression) -> bool {
    match result.data {
        HirExpressionData::Unary { operand, .. } => {
            &&& result.type_ == operand.type_
            &&& operand.type_ matches Type::Integer(t) && spec_is_signed(t)
        },
        HirExpressionData::Integer(_) => result.type_ matches Type::Integer(t) && spec_is_signed(t),
        HirExpressionData::Error => true,
        _ => false,
    }
}

/// How indexing is typed: the base is an array, the index is a `usize`
/// (a constant one lies within the array) unless it is of a kind whose type
/// is not checked against its context, and the result has the array's
/// element type.
pub open spec fn index_typed(result: HirExpression) -> bool {
    match result.data {
        HirExpressionData::Index { base, index } => {
            &&& index.type_ == Type::Integer(IntegerType::Usize) || unchecked_result_type(index.type_)
            &&& match base.type_ {
                Type::FixedArray { base_type, size } => {
                    &&& type_eq(result.type_, *base_type)
                    &&& index.data matches HirExpressionData::Integer(v) ==> 0 <= v < size
                },
                _ => false,
            }
        },
        HirExpressionData::Error => true,
        _ => false,
    }
}

/// How an array repetition is typed: an array of as many elements as it
/// repeats, of the repeated value's type.
pub open spec fn array_repeat_typed(result: HirExpression) -> bool {
    match result.data {
        HirExpressionData::ArrayRepeatInitialization { amount, value } =>
            result.type_ matches Type::FixedArray { size, base_type } && size == amount && type_eq(*base_type, value.type_),
        HirExpressionData::Error => true,
        _ => false,
    }
}

/// How a call is typed: the callee is a function, given one argument for
/// each parameter, of the parameter's type unless the argument is of a kind
/// whose type is not checked against its context or the parameter's type is
/// itself in error; the call has the function's return type.
/// An elaborated binary expression keeps its operands in their places: its
/// left operand is the elaboration of the source's left operand, at
/// `lhs_span`, and its right one that of the right operand, at `rhs_span`.
pub open spec fn operands_in_place(result: HirExpression, lhs_span: Span, rhs_span: Span) -> bool {
    result.data matches HirExpressionData::Binary { lhs, rhs, .. } ==> lhs.span == lhs_span && rhs.span == rhs_span
}

/// An elaborated call keeps its callee and its arguments in order: the
/// `i`-th argument is the elaboration of the `i`-th source argument.
pub open spec fn arguments_in_place(result: HirExpression, callee_span: Span, arguments: Seq<Expression>) -> bool {
    result.data matches HirExpressionData::Call { callee, arguments: elaborated } ==> {
        &&& callee.span == callee_span
        &&& elaborated@.len() == arguments.len()
        &&& forall|i: int| 0 <= i < arguments.len() ==> (#[trigger] elaborated@[i]).span == arguments[i].span
    }
}

pub open spec fn call_typed(result: HirExpression) -> bool {
    match result.data {
        HirExpressionData::Call { callee, arguments } => match callee.type_ {
            Type::Function { parameters, return_type } => {
                &&& arguments@.len() == parameters@.len()
                &&& type_eq(*return_type, result.type_)
                &&& forall|i: int| 0 <= i < arguments@.len() ==>
                    type_eq(parameters@[i], (#[trigger] arguments@[i]).type_) || unchecked_result_type(arguments@[i].type_)
                        || parameters@[i] is Error
            },
            _ => false,
        },
        HirExpressionData::Error => true,
        _ => false,
    }
}

/// The integer literal that an expression is, read from its text.
pub open spec fn literal_of(e: Expression, sources: &SourceFileManager) -> Option<ParsedIntegerLiteral> {
    if e.data is IntegerLiteral {
        integer_literal(text_at(sources, e.span))
    } else {
        None
    }
}

/// A comparison of two integer literals that fit the type of the first
/// (its suffix, else `i64`), the second unsuffixed or of that type, with
/// nothing but `bool` expected: it is typed `bool`, both operands of that
/// integer type, and reports nothing.
pub open spec fn literal_comparison(
    lhs: Expression, operator: BinaryOperator, rhs: Expression, expected: Option<&Type>,
    sources: &SourceFileManager, target: TargetInfo,
    result: HirExpression, reported_before: Seq<Diagnostic>, reported_after: Seq<Diagnostic>,
) -> bool {
    !is_arithmetic(operator) && (expected matches Some(t) ==> *t is Bool) ==> match (literal_of(lhs, sources), literal_of(rhs, sources)) {
        (Some(a), Some(b)) => (b.suffix is None || b.suffix == Some(literal_type(a.suffix, None)))
            && a.magnitude <= spec_maximum(literal_type(a.suffix, None), target)
            && b.magnitude <= spec_maximum(literal_type(a.suffix, None), target) ==> {
            &&& result.type_ == Type::Bool
            &&& match result.data {
                HirExpressionData::Binary { lhs: l, operator: op, rhs: r } => op == operator
                    && l.type_ == Type::Integer(literal_type(a.suffix, None)) && r.type_ == Type::Integer(literal_type(a.suffix, None)),
                _ => false,
            }
            &&& reported_after == reported_before
        },
        _ => true,
    }
}

/// The elaborated statement is of the source statement's kind: an
/// expression statement, a loop, a conditional with an `else` exactly when
/// the source has one, or a return with a value exactly when the source has one.
pub open spec fn statement_shape(statement: Statement, result: HirStatement) -> bool {
    match statement.data {
        StatementData::Expression(_) => result.data is Expression,
        StatementData::While(_) => result.data is While,
        StatementData::If(i) => match result.data {
            HirStatementData::If { else_branch, .. } => (i.else_ is None) == (else_branch is None),
            _ => false,
        },
        StatementData::Return(None) => result.data == HirStatementData::Return(None),
        StatementData::Return(Some(_)) => result.data matches HirStatementData::Return(Some(_)),
        _ => true,
    }
}

/// The first symbol of the table that is the external function linked as
/// `link_name` with calling convention `abi`, if there is one.
pub open spec fn first_extern(symbols: Seq<Symbol>, abi: ExternAbi, link_name: Seq<char>) -> Option<int> {
    if exists|j: int| 0 <= j < symbols.len() && extern_named(#[trigger] symbols[j].kind, abi, link_name) {
        Some(choose|j: int| 0 <= j < symbols.len() && extern_named(#[trigger] symbols[j].kind, abi, link_name)
            && forall|k: int| 0 <= k < j ==> !extern_named(#[trigger] symbols[k].kind, abi, link_name))
    } else {
        None
    }
}

/// A type that a symbol keeps once its binding is elaborated: neither the
/// error type nor the mark of a binding not elaborated yet.
pub open spec fn settled_type(t: Type) -> bool {
    !(t is Error) && !(t is Unknown)
}

/// The message with which an integer literal is refused, if it is: a suffix
/// that differs from the expected integer type, a non-integer expected type,
/// the negation of an unsigned type, or a value out of the type's range.
pub open spec fn literal_failure(literal: ParsedIntegerLiteral, expected: Option<&Type>, negate: bool, target: TargetInfo) -> Option<Seq<char>> {
    let t = literal_type(literal.suffix, expected);
    let value: int = if negate { -(literal.magnitude as int) } else { literal.magnitude as int };
    if literal.suffix is Some && (expected matches Some(e) && *e matches Type::Integer(i) && i != literal.suffix->0) {
        Some("Integer type mismatch"@)
    } else if expected matches Some(e) && !(*e is Integer) {
        Some("Type mismatch"@)
    } else if negate && !spec_is_signed(t) {
        Some("Cannot negate an unsigned integer"@)
    } else if !(spec_minimum(t, target) <= value <= spec_maximum(t, target)) {
        Some("Integer literal out of range"@)
    } else {
        None
    }
}

/// The type of an integer literal: its suffix, else the expected integer
/// type, else `i64`.
pub open spec fn literal_type(suffix: Option<IntegerType>, expected: Option<&Type>) -> IntegerType {
    match suffix {
        Some(t) => t,
        None => match expected {
            Some(t) => match *t {
                Type::Integer(i) => i,
                _ => IntegerType::I64,
            },
            None => IntegerType::I64,
        },
    }
}

/// Whether a type has no runtime representation: `type` and `str`.
pub open spec fn unsized_at_runtime(t: Type) -> bool {
    t is Type || t is Str
}

/// The specialization key of a compile-time value; only types, strings,
/// integers and booleans have one.
pub open spec fn key_of(value: ComptimeValue) -> Option<ComptimeKey> {
    match value {
        ComptimeValue::Type(t) => Some(ComptimeKey::Type(t)),
        ComptimeValue::String(s) => Some(ComptimeKey::Str(s)),
        ComptimeValue::Integer { value, type_ } => Some(ComptimeKey::Integer { value, type_ }),
        ComptimeValue::Bool(b) => Some(ComptimeKey::Bool(b)),
        _ => None,
    }
}

fn is_digit(c: char) -> (b: bool)
    ensures
        b == ('0' <= c <= '9'),
{
    '0' <= c && c <= '9'
}

/// Whether `s` holds exactly the characters `a` and `b`.
fn is_chars2(s: &Vec<char>, a: char, b: char) -> (r: bool)
    ensures
        r == (s@ == seq![a, b]),
{
    let r = s.len() == 2 && s[0] == a && s[1] == b;
    proof {
        if r {
            assert(s@ =~= seq![a, b]);
        }
        if s@ == seq![a, b] {
            assert(s@[0] == a && s@[1] == b);
        }
    }
    r
}

/// Whether `s` holds exactly the characters `a`, `b` and `c`.
fn is_chars3(s: &Vec<char>, a: char, b: char, c: char) -> (r: bool)
    ensures
        r == (s@ == seq![a, b, c]),
{
    let r = s.len() == 3 && s[0] == a && s[1] == b && s[2] == c;
    proof {
        if r {
            assert(s@ =~= seq![a, b, c]);
        }
        if s@ == seq![a, b, c] {
            assert(s@[0] == a && s@[1] == b && s@[2] == c);
        }
    }
    r
}

/// Whether `s` holds exactly the characters `a` to `e`.
fn is_chars5(s: &Vec<char>, a: char, b: char, c: char, d: char, e: char) -> (r: bool)
    ensures
        r == (s@ == seq![a, b, c, d, e]),
{
    let r = s.len() == 5 && s[0] == a && s[1] == b && s[2] == c && s[3] == d && s[4] == e;
    proof {
        if r {
            assert(s@ =~= seq![a, b, c, d, e]);
        }
        if s@ == seq![a, b, c, d, e] {
            assert(s@[0] == a && s@[1] == b && s@[2] == c && s@[3] == d && s@[4] == e);
        }
    }
    r
}

/// The integer type a literal suffix names, if any.
fn suffix_of(suffix: &Vec<char>) -> (t: Option<IntegerType>)
    ensures
        t == suffix_type(suffix@),
{
    if is_chars2(suffix, 'u', '8') { Some(IntegerType::U8) }
    else if is_chars2(suffix, 'i', '8') { Some(IntegerType::I8) }
    else if is_chars3(suffix, 'u', '1', '6') { Some(IntegerType::U16) }
    else if is_chars3(suffix, 'i', '1', '6') { Some(IntegerType::I16) }
    else if is_chars3(suffix, 'u', '3', '2') { Some(IntegerType::U32) }
    else if is_chars3(suffix, 'i', '3', '2') { Some(IntegerType::I32) }
    else if is_chars3(suffix, 'u', '6', '4') { Some(IntegerType::U64) }
    else if is_chars3(suffix, 'i', '6', '4') { Some(IntegerType::I64) }
    else if is_chars5(suffix, 'u', 's', 'i', 'z', 'e') { Some(IntegerType::Usize) }
    else if is_chars5(suffix, 'i', 's', 'i', 'z', 'e') { Some(IntegerType::Isize) }
    else { None }
}

/// Why reading an integer literal failed.
#[derive(Debug, Clone, Copy, PartialEq, Eq, Structural)]
pub enum LiteralError {
    TooLarge,
    UnknownSuffix,
}

/// Reads an integer literal: its leading digits, then an optional suffix
/// that names an integer type.
pub fn read_integer_literal(text: &Vec<char>) -> (result: Result<ParsedIntegerLiteral, LiteralError>)
    ensures
        match result {
            Ok(literal) => integer_literal(text@) == Some(literal),
            Err(_) => integer_literal(text@) is None,
        },
{
    let mut end: usize = 0;
    while end < text.len() && is_digit(text[end])
        invariant
            end <= text@.len(),
            forall|j: int| 0 <= j < end ==> '0' <= #[trigger] text@[j] <= '9',
        decreases text@.len() - end,
    {
        end += 1;
    }
    proof {
        if end < text@.len() {
            let i = end as int;
            assert(!('0' <= text@[i] <= '9'));
            assert(exists|i: int| 0 <= i < text@.len() && !('0' <= #[trigger] text@[i] <= '9'));
            let c = choose|i: int| 0 <= i < text@.len() && !('0' <= #[trigger] text@[i] <= '9')
                && forall|j: int| 0 <= j < i ==> '0' <= #[trigger] text@[j] <= '9';
            assert(0 <= c < text@.len() && !('0' <= text@[c] <= '9')
                && forall|j: int| 0 <= j < c ==> '0' <= #[trigger] text@[j] <= '9');
            if c < i {
                assert('0' <= text@[c] <= '9');
            }
            if c > i {
                assert('0' <= text@[i] <= '9');
            }
            assert(digits_end(text@) == end);
        } else {
            assert(!exists|i: int| 0 <= i < text@.len() && !('0' <= #[trigger] text@[i] <= '9'));
            assert(digits_end(text@) == end);
        }
    }
    let ghost digits = text@.subrange(0, end as int);
    let mut value: u64 = 0;
    let mut i: usize = 0;
    let mut overflow = false;
    while i < end
        invariant
            i <= end <= text@.len(),
            forall|j: int| 0 <= j < end ==> '0' <= #[trigger] text@[j] <= '9',
            digits == text@.subrange(0, end as int),
            !overflow ==> value == digits_value(text@.subrange(0, i as int)),
            overflow ==> digits_value(text@.subrange(0, i as int)) > u64::MAX,
        decreases end - i,
    {
        let digit = (text[i] as u32 - '0' as u32) as u64;
        let ghost prefix = text@.subrange(0, i as int + 1);
        proof {
            assert(prefix.drop_last() =~= text@.subrange(0, i as int));
            assert(prefix.last() == text@[i as int]);
            lemma_digits_value_grows(prefix);
        }
        if !overflow {
            if value > (u64::MAX - digit) / 10 {
                overflow = true;
                proof {
                    assert(value * 10 + digit > u64::MAX) by (nonlinear_arith)
                        requires value > (u64::MAX - digit) / 10, digit <= 9;
                }
            } else {
                proof {
                    assert(value * 10 + digit <= u64::MAX) by (nonlinear_arith)
                        requires value <= (u64::MAX - digit) / 10, digit <= 9;
                }
                value = value * 10 + digit;
            }
        }
        i += 1;
    }
    let mut suffix: Vec<char> = Vec::new();
    let mut k: usize = end;
    while k < text.len()
        invariant
            end <= k <= text@.len(),
            suffix@ == text@.subrange(end as int, k as int),
        decreases text@.len() - k,
    {
        suffix.push(text[k]);
        k += 1;
    }
    proof {
        assert(text@.subrange(0, i as int) =~= digits);
    }
    if end == 0 || overflow {
        return Err(LiteralError::TooLarge);
    }
    if suffix.len() == 0 {
        return Ok(ParsedIntegerLiteral { magnitude: value, suffix: None });
    }
    match suffix_of(&suffix) {
        Some(t) => Ok(ParsedIntegerLiteral { magnitude: value, suffix: Some(t) }),
        None => Err(LiteralError::UnknownSuffix),
    }
}

/// Appending a digit multiplies the value by ten and adds the digit, so
/// the value never shrinks.
proof fn lemma_digits_value_grows(digits: Seq<char>)
    requires
        digits.len() > 0,
        '0' <= digits.last() <= '9',
    ensures
        digits_value(digits) == digits_value(digits.drop_last()) * 10 + (digits.last() as int - '0' as int),
        digits_value(digits) >= digits_value(digits.drop_last()) * 10,
{
}

impl<'src> Elaborator<'src> {
    /// Elaborates `expression`, checking it against the `expected` type when
    /// there is one. An expression that cannot be elaborated is reported and
    /// comes back as an error expression.
    pub(crate) fn analyze_expression(&mut self, expression: &Expression, expected: Option<&Type>) -> (result: HirExpression)
        requires
            old(self).inv(),
        ensures
            final(self).refers_within(result),
            old(self).evolves(*final(self)),
            result.span == expression.span,
            result.data is Error ==> result.type_ is Error,
            checked_against_expected(expression.data) ==> meets_expected(result.type_, expected),
            !checked_against_expected(expression.data) ==> unchecked_result_type(result.type_),
            expression.data is Name ==> match result.data {
                HirExpressionData::Symbol(symbol) => old(self).resolves_to(expression.span, symbol),
                _ => result.data is Error,
            },
            expression.data matches ExpressionData::Binary { operator, .. } ==> binary_typed(result, operator),
            expression.data matches ExpressionData::Binary { lhs, rhs, .. } ==> operands_in_place(result, lhs.span, rhs.span),
            expression.data matches ExpressionData::Call { callee, arguments } ==> arguments_in_place(result, callee.span, arguments@),
            expression.data is Unary ==> unary_typed(result),
            expression.data is Index ==> index_typed(result),
            expression.data is Call ==> call_typed(result),
            expression.data is StringLiteral && old(self).fuel > 0 && (expected matches Some(t) ==> *t is Str)
                ==> (result.data is StringLiteral && result.type_ is Str && final(self).fuel == old(self).fuel - 1),
            expression.data is ArrayRepeatInitialization ==> array_repeat_typed(result),
            expression.data is IntegerLiteral && old(self).fuel > 0 ==> final(self).symbols == old(self).symbols,
            expression.data is IntegerLiteral && old(self).fuel > 0 ==> final(self).fuel == old(self).fuel - 1 && match expected {
                Some(e) => match *e {
                    Type::Integer(t) => match integer_literal(crate::elaboration::text_at(old(self).sources, expression.span)) {
                        Some(literal) => ((literal.suffix is None || literal.suffix == Some(t))
                            && literal.magnitude <= spec_maximum(t, old(self).target))
                            ==> (result.data == HirExpressionData::Integer(literal.magnitude as i128) && result.type_ == Type::Integer(t)
                                && final(self).diagnostics == old(self).diagnostics),
                        None => result.data is Error,
                    },
                    _ => true,
                },
                None => match integer_literal(crate::elaboration::text_at(old(self).sources, expression.span)) {
                    Some(literal) => literal.magnitude <= spec_maximum(literal_type(literal.suffix, None), old(self).target)
                        ==> (result.data == HirExpressionData::Integer(literal.magnitude as i128)
                            && result.type_ == Type::Integer(literal_type(literal.suffix, None))
                            && final(self).diagnostics == old(self).diagnostics),
                    None => result.data is Error,
                },
            },
            expression.data matches ExpressionData::Boolean(v) ==> result.data is Error
                || (result.data == HirExpressionData::Bool(v) && result.type_ is Bool),
            old(self).fuel >= 3 ==> match expression.data {
                ExpressionData::Binary { lhs, operator, rhs } => literal_comparison(*lhs, operator, *rhs, expected,
                    old(self).sources, old(self).target, result, old(self).diagnostics@, final(self).diagnostics@),
                _ => true,
            },
            expression.data is Name && old(self).fuel > 0 ==> match lookup_from_spec(old(self).environment@.scopes, old(self).environment@.current, text_at(old(self).sources, expression.span)) {
                None => {
                    &&& result.data is Error
                    &&& final(self).diagnostics@.len() == old(self).diagnostics@.len() + 1
                    &&& final(self).diagnostics@.last()@.message == "Identifier not bound"@
                    &&& final(self).diagnostics@.last()@.primary.span == expression.span
                },
                Some(s) => settled_type(old(self).symbols.symbols@[s.0 as int].type_)
                    && (expected matches Some(t) ==> (*t is Error || type_eq(*t, old(self).symbols.symbols@[s.0 as int].type_))) ==> {
                    &&& result.data == HirExpressionData::Symbol(s)
                    &&& type_eq(result.type_, old(self).symbols.symbols@[s.0 as int].type_)
                    &&& final(self).diagnostics == old(self).diagnostics
                },
            },
            expression.data is StringLiteral && old(self).fuel > 0 && (expected matches Some(t) && !(*t is Str)) ==> {
                &&& result.data is Error
                &&& final(self).diagnostics@.len() == old(self).diagnostics@.len() + 1
                &&& final(self).diagnostics@.last()@.message == "Type mismatch"@
                &&& final(self).diagnostics@.last()@.primary.span == expression.span
            },
            match expression.data {
                ExpressionData::TypeValue(te) => old(self).fuel > type_value_steps(te) + 1 && clean_type_value(*old(self), te)
                    && (expected matches Some(t) && !(*t is Type || *t is Error))
                    ==> final(self).diagnostics@.len() == old(self).diagnostics@.len() + 1,
                _ => true,
            },
            old(self).fuel > 1 && (expression.data matches ExpressionData::TypeValue(te) && (te.data is Unit || te.data is Function))
                && (expected matches Some(t) && !(*t is Type || *t is Error)) ==> {
                &&& result.data is Error
                &&& final(self).diagnostics@.last()@.message == "Type mismatch"@
                &&& final(self).diagnostics@.last()@.primary.span == expression.span
            },
        decreases old(self).fuel, 0nat,
    {
        if !self.tick(expression.span) {
            return HirExpression::error(expression.span);
        }
        match &expression.data {
            ExpressionData::Intrinsic { .. } => {
                self.report(error_str("Intrinsics are currently unsupported", expression.span, ":("));
                HirExpression::error(expression.span)
            },
            ExpressionData::Import { .. } => {
                self.report(error_str("Imports are resolved before elaboration", expression.span, "an import cannot be used as a value here"));
                HirExpression::error(expression.span)
            },
            ExpressionData::Member { .. } => {
                self.report(error_str("Member access is currently unsupported", expression.span, ":("));
                HirExpression::error(expression.span)
            },
            ExpressionData::TypeValue(type_expression) => self.analyze_type_value(expression, type_expression, expected),
            ExpressionData::StringLiteral => self.analyze_string_literal(expression, expected),
            ExpressionData::Index { base, index } => self.analyze_index(expression, base, index, expected),
            ExpressionData::ArrayRepeatInitialization { value, size } => self.analyze_array_repeat(expression, value, size, expected),
            ExpressionData::Boolean(value) => self.analyze_boolean(expression, *value, expected),
            ExpressionData::Binary { lhs, operator, rhs } => self.analyze_binary(expression, lhs, *operator, rhs, expected),
            ExpressionData::Unary { operator, operand } => self.analyze_unary(expression, *operator, operand, expected),
            ExpressionData::Specialize { callee, arguments } => self.analyze_specialize(expression, callee, arguments),
            ExpressionData::Call { callee, arguments } => self.analyze_call(expression, callee, arguments, expected),
            ExpressionData::Function(function) => self.analyze_function(expression, function),
            ExpressionData::IntegerLiteral => self.analyze_integer_literal(expression, expression.span, expected, false),
            ExpressionData::Name => self.analyze_name(expression, expected),
        }
    }

    /// Reports that `found` was given where `expected` was: "Type mismatch".
    fn report_type_mismatch(&mut self, span: Span, expected: &Type, found: &str)
        requires
            old(self).inv(),
        ensures
            old(self).evolves(*final(self)),
            final(self).fuel == old(self).fuel,
            final(self).diagnostics@.len() == old(self).diagnostics@.len() + 1,
            final(self).diagnostics@.last()@.message == "Type mismatch"@,
            final(self).diagnostics@.last()@.primary.span == span,
    {
        proof {
            reveal_strlit("Type mismatch");
        }
        let text = join(join(join(join(String::from_str("expected `"), type_debug_text(expected).as_str()), "` but got `"), found), "`");
        self.report(Diagnostic::error(String::from_str("Type mismatch"), span, text));
    }

    fn analyze_type_value(&mut self, expression: &Expression, type_expression: &TypeExpression, expected: Option<&Type>) -> (result: HirExpression)
        requires
            old(self).inv(),
        ensures
            final(self).refers_within(result),
            old(self).evolves(*final(self)),
            result.span == expression.span,
            result.data is Error ==> result.type_ is Error,
            meets_expected(result.type_, expected),
            old(self).fuel > 0 && (type_expression.data is Unit || type_expression.data is Function)
                && (expected matches Some(t) && !(*t is Type || *t is Error)) ==> {
                &&& result.data is Error
                &&& final(self).diagnostics@.len() > 0
                &&& final(self).diagnostics@.last()@.message == "Type mismatch"@
                &&& final(self).diagnostics@.last()@.primary.span == expression.span
            },
            old(self).fuel > type_value_steps(*type_expression) && clean_type_value(*old(self), *type_expression)
                && (expected matches Some(t) && !(*t is Type || *t is Error))
                ==> final(self).diagnostics@.len() == old(self).diagnostics@.len() + 1,
        decreases old(self).fuel, 1nat,
    {
        let value = self.resolve_type_expression(type_expression);
        if matches!(value, Type::Error) {
            return HirExpression::error(expression.span);
        }
        match expected {
            Some(expected) => {
                if !matches!(expected, Type::Type) && !matches!(expected, Type::Error) {
                    self.report_type_mismatch(expression.span, expected, "type");
                    return HirExpression::error(expression.span);
                }
            },
            None => {},
        }
        HirExpression { span: expression.span, type_: Type::Type, data: HirExpressionData::TypeValue(value) }
    }

    fn analyze_string_literal(&mut self, expression: &Expression, expected: Option<&Type>) -> (result: HirExpression)
        requires
            old(self).inv(),
        ensures
            final(self).refers_within(result),
            old(self).evolves(*final(self)),
            result.span == expression.span,
            result.data is Error ==> result.type_ is Error,
            meets_expected(result.type_, expected),
            final(self).fuel == old(self).fuel,
            expected matches Some(t) && !(*t is Str) ==> result.data is Error
                && final(self).diagnostics@.len() == old(self).diagnostics@.len() + 1
                && final(self).diagnostics@.last()@.message == "Type mismatch"@
                && final(self).diagnostics@.last()@.primary.span == expression.span,
            !(expected matches Some(t) && !(*t is Str)) ==> {
                &&& result.type_ is Str
                &&& result.data matches HirExpressionData::StringLiteral(content) && content@ == (if expression.span.start < expression.span.end && expression.span.end - expression.span.start >= 2 {
                    text_at(old(self).sources, Span { source: expression.span.source, start: (expression.span.start + 1) as usize, end: (expression.span.end - 1) as usize })
                } else {
                    Seq::<char>::empty()
                })
            },
    {
        let span = expression.span;
        let content = if span.start < span.end && span.end - span.start >= 2 {
            self.span_text(Span { source: span.source, start: span.start + 1, end: span.end - 1 })
        } else {
            String::new()
        };
        match expected {
            Some(expected) => {
                if !matches!(expected, Type::Str) {
                    self.report_type_mismatch(expression.span, expected, "Str");
                    return HirExpression::error(expression.span);
                }
            },
            None => {},
        }
        HirExpression { span: expression.span, data: HirExpressionData::StringLiteral(content), type_: Type::Str }
    }

    /// Whether `index` is a constant that lies outside an array of `size` elements.
    fn constant_index_out_of_bounds(&mut self, index: &HirExpression, size: usize) -> (out: bool)
        requires
            old(self).inv(),
        ensures
            old(self).evolves(*final(self)),
            final(self).fuel == old(self).fuel,
            out == (index.data matches HirExpressionData::Integer(v) && !(0 <= v < size)),
    {
        match &index.data {
            HirExpressionData::Integer(value) => {
                let valid = *value >= 0 && *value < size as i128;
                if !valid {
                    let text = join(join(join(String::from_str("array length is "), decimal_text(size as i128).as_str()), ", but the index is "), decimal_text(*value).as_str());
                    self.report(Diagnostic::error(String::from_str("Array index out of bounds"), index.span, text));
                }
                !valid
            },
            _ => false,
        }
    }

    #[verifier::rlimit(60)]
    #[verifier::spinoff_prover]
    fn analyze_index(&mut self, expression: &Expression, base: &Expression, index: &Expression, expected: Option<&Type>) -> (result: HirExpression)
        requires
            old(self).inv(),
        ensures
            final(self).refers_within(result),
            old(self).evolves(*final(self)),
            result.span == expression.span,
            result.data is Error ==> result.type_ is Error,
            meets_expected(result.type_, expected),
            index_typed(result),
        decreases old(self).fuel, 1nat,
    {
        let base = self.analyze_expression(base, None);
        let ghost after_base = *self;
        let usize_type = Type::Integer(IntegerType::Usize);
        let index = self.analyze_expression(index, Some(&usize_type));
        let ghost after_index = *self;
        if matches!(base.type_, Type::Error) || matches!(index.type_, Type::Error) {
            return HirExpression::error(expression.span);
        }
        let (element_type, array_size) = match &base.type_ {
            Type::FixedArray { base_type, size } => (base_type.duplicate(), *size),
            other => {
                let text = join(join(String::from_str("expected an array, found `"), type_debug_text(other).as_str()), "`");
                self.report(Diagnostic::error(String::from_str("Value is not indexable"), base.span, text));
                return HirExpression::error(expression.span);
            },
        };
        match expected {
            Some(expected) => {
                if !matches!(expected, Type::Error) && !expected.same_as(&element_type) {
                    let text = join(join(join(join(String::from_str("expected `"), type_debug_text(expected).as_str()), "`, but indexing this array produces `"), type_debug_text(&element_type).as_str()), "`");
                    self.report(Diagnostic::error(String::from_str("Type mismatch"), expression.span, text));
                    return HirExpression::error(expression.span);
                }
            },
            None => {},
        }
        if self.constant_index_out_of_bounds(&index, array_size) {
            return HirExpression::error(expression.span);
        }
        proof {
            after_base.lemma_within_persists(*self, base);
            after_index.lemma_within_persists(*self, index);
        }
        HirExpression {
            span: expression.span,
            type_: element_type,
            data: HirExpressionData::Index { base: Box::new(base), index: Box::new(index) },
        }
    }

    fn analyze_array_repeat(&mut self, expression: &Expression, value: &Expression, size: &Expression, expected: Option<&Type>) -> (result: HirExpression)
        requires
            old(self).inv(),
        ensures
            final(self).refers_within(result),
            old(self).evolves(*final(self)),
            result.span == expression.span,
            result.data is Error ==> result.type_ is Error,
            unchecked_result_type(result.type_),
            array_repeat_typed(result),
        decreases old(self).fuel, 1nat,
    {
        let amount = match self.resolve_static_array_length(size) {
            Some(amount) => amount,
            None => {
                return HirExpression::error(expression.span);
            },
        };
        let element_expected: Option<&Type> = match expected {
            Some(expected) => match expected {
                Type::FixedArray { base_type, size } => {
                    if *size != amount {
                        let text = join(join(join(String::from_str("Expected Array of length "), decimal_text(*size as i128).as_str()), " but got length "), decimal_text(amount as i128).as_str());
                        self.report(Diagnostic::error(String::from_str("Array Length Mismatch"), expression.span, text));
                        return HirExpression::error(expression.span);
                    }
                    Some(&**base_type)
                },
                _ => {
                    let text = join(join(String::from_str("expected expression of type `"), type_debug_text(expected).as_str()), "` but got Array");
                    self.report(Diagnostic::error(String::from_str("Type mismatch"), expression.span, text));
                    return HirExpression::error(expression.span);
                },
            },
            None => None,
        };
        let value = self.analyze_expression(value, element_expected);
        HirExpression {
            span: expression.span,
            type_: Type::FixedArray { size: amount, base_type: Box::new(value.type_.duplicate()) },
            data: HirExpressionData::ArrayRepeatInitialization { amount, value: Box::new(value) },
        }
    }

    fn analyze_boolean(&mut self, expression: &Expression, value: bool, expected: Option<&Type>) -> (result: HirExpression)
        requires
            old(self).inv(),
        ensures
            final(self).refers_within(result),
            old(self).evolves(*final(self)),
            result.span == expression.span,
            result.data is Error ==> result.type_ is Error,
            meets_expected(result.type_, expected),
            expected matches Some(t) && !(*t is Bool) ==> result.data is Error,
            !(expected matches Some(t) && !(*t is Bool)) ==> result.type_ is Bool && result.data == HirExpressionData::Bool(value),
    {
        match expected {
            Some(expected) => {
                if !matches!(expected, Type::Bool) {
                    let text = join(join(join(String::from_str("Expected expression of type `"), type_debug_text(expected).as_str()), "` but got `"), "Bool`");
                    self.report(Diagnostic::error(String::from_str("Type mismatch"), expression.span, text));
                    return HirExpression::error(expression.span);
                }
            },
            None => {},
        }
        HirExpression { span: expression.span, type_: Type::Bool, data: HirExpressionData::Bool(value) }
    }

    #[verifier::rlimit(60)]
    #[verifier::spinoff_prover]
    fn analyze_binary(
        &mut self,
        expression: &Expression,
        lhs: &Expression,
        operator: BinaryOperator,
        rhs: &Expression,
        expected: Option<&Type>,
    ) -> (result: HirExpression)
        requires
            old(self).inv(),
        ensures
            final(self).refers_within(result),
            old(self).evolves(*final(self)),
            result.span == expression.span,
            result.data is Error ==> result.type_ is Error,
            meets_expected(result.type_, expected),
            binary_typed(result, operator),
            old(self).fuel >= 2 ==> literal_comparison(*lhs, operator, *rhs, expected, old(self).sources, old(self).target,
                result, old(self).diagnostics@, final(self).diagnostics@),
            result.data matches HirExpressionData::Binary { lhs, .. } && (operator is Equal || operator is NotEqual)
                && !(lhs.type_ is Integer || lhs.type_ is Bool) ==> final(self).diagnostics@.len() > old(self).diagnostics@.len(),
            operands_in_place(result, lhs.span, rhs.span),
        decreases old(self).fuel, 1nat,
    {
        let arithmetic = matches!(
            operator,
            BinaryOperator::Add | BinaryOperator::Subtract | BinaryOperator::Multiply | BinaryOperator::Divide
        );
        let expected_integer: Option<&Type> = match expected {
            Some(expected) => if expected.is_integer() { Some(expected) } else { None },
            None => None,
        };
        let lhs = if arithmetic {
            self.analyze_expression(lhs, expected_integer)
        } else {
            self.analyze_expression(lhs, None)
        };
        if matches!(lhs.type_, Type::Error) {
            return HirExpression::error(expression.span);
        }
        let ghost after_lhs = *self;
        let supports_equality = lhs.type_.is_integer() || matches!(lhs.type_, Type::Bool);
        if matches!(operator, BinaryOperator::Equal | BinaryOperator::NotEqual) && !supports_equality {
            let text = join(join(String::from_str("found operands of type `"), type_debug_text(&lhs.type_).as_str()), "`");
            self.report(Diagnostic::error(String::from_str("Type does not support equality"), expression.span, text));
        }
        let rhs = self.analyze_expression(rhs, Some(&lhs.type_));
        if matches!(rhs.type_, Type::Error) {
            return HirExpression::error(expression.span);
        }
        if !lhs.type_.same_as(&rhs.type_) {
            let text = join(join(join(join(String::from_str("left operand has type `"), type_debug_text(&lhs.type_).as_str()), "`, but right operand has type `"), type_debug_text(&rhs.type_).as_str()), "`");
            self.report(Diagnostic::error(String::from_str("Binary operand type mismatch"), expression.span, text));
            return HirExpression::error(expression.span);
        }
        let comparison = matches!(
            operator,
            BinaryOperator::LessThan | BinaryOperator::GreaterThan | BinaryOperator::LessThanOrEqual | BinaryOperator::GreaterThanOrEqual
        );
        if (arithmetic || comparison) && !lhs.type_.is_integer() {
            let text = join(join(String::from_str("found operands of type `"), type_debug_text(&lhs.type_).as_str()), "`");
            self.report(Diagnostic::error(String::from_str("Operator requires integer operands"), expression.span, text));
            return HirExpression::error(expression.span);
        }
        let resulting_type = if arithmetic { lhs.type_.duplicate() } else { Type::Bool };
        match expected {
            Some(expected) => {
                if !expected.same_as(&resulting_type) {
                    let text = join(join(join(join(String::from_str("Expected `"), type_debug_text(expected).as_str()), "`, but this expression produces `"), type_debug_text(&resulting_type).as_str()), "`");
                    self.report(Diagnostic::error(String::from_str("Type mismatch"), expression.span, text));
                    return HirExpression::error(expression.span);
                }
            },
            None => {},
        }
        proof {
            after_lhs.lemma_within_persists(*self, lhs);
        }
        HirExpression {
            span: expression.span,
            type_: resulting_type,
            data: HirExpressionData::Binary { lhs: Box::new(lhs), operator, rhs: Box::new(rhs) },
        }
    }

    fn analyze_unary(&mut self, expression: &Expression, operator: UnaryOperator, operand: &Expression, expected: Option<&Type>) -> (result: HirExpression)
        requires
            old(self).inv(),
        ensures
            final(self).refers_within(result),
            old(self).evolves(*final(self)),
            result.span == expression.span,
            result.data is Error ==> result.type_ is Error,
            meets_expected(result.type_, expected),
            unary_typed(result),
        decreases old(self).fuel, 1nat,
    {
        if matches!(operand.data, ExpressionData::IntegerLiteral) {
            return self.analyze_integer_literal(operand, expression.span, expected, true);
        }
        let operand = self.analyze_expression(operand, expected);
        if matches!(operand.type_, Type::Error) {
            return HirExpression::error(expression.span);
        }
        let integer_type = match operand.type_.as_integer() {
            Some(t) => t,
            None => {
                let text = join(join(String::from_str("found operand of type `"), type_debug_text(&operand.type_).as_str()), "`");
                self.report(Diagnostic::error(String::from_str("Unary negation requires an integer"), expression.span, text));
                return HirExpression::error(expression.span);
            },
        };
        if !integer_type.is_signed() {
            let text = join(join(String::from_str("`"), integer_type.name()), "` is unsigned");
            self.report(Diagnostic::error(String::from_str("Cannot negate an unsigned integer"), expression.span, text));
            return HirExpression::error(expression.span);
        }
        HirExpression {
            type_: operand.type_.duplicate(),
            span: expression.span,
            data: HirExpressionData::Unary { operator, operand: Box::new(operand) },
        }
    }

    fn analyze_specialize(&mut self, expression: &Expression, callee: &Expression, arguments: &Vec<Expression>) -> (result: HirExpression)
        requires
            old(self).inv(),
        ensures
            final(self).refers_within(result),
            old(self).evolves(*final(self)),
            result.span == expression.span,
            result.data is Error ==> result.type_ is Error,
            unchecked_result_type(result.type_),
        decreases old(self).fuel, 1nat,
    {
        match &callee.data {
            ExpressionData::Intrinsic { name } => {
                let intrinsic = self.span_text(*name);
                let extern_name = String::from_str("extern");
                if intrinsic == extern_name {
                    return self.analyze_extern_intrinsic(arguments, expression.span);
                }
                let text = join(join(String::from_str("Unknown intrinsic `"), intrinsic.as_str()), "`");
                self.report(Diagnostic::error(String::from_str("Unknown intrinsic"), callee.span, text));
                return HirExpression::error(expression.span);
            },
            _ => {},
        }
        let callee = self.analyze_expression(callee, None);
        let template_id = match callee.type_ {
            Type::FunctionTemplate(template_id) => template_id,
            _ => {
                if !matches!(callee.type_, Type::Error) {
                    let text = join(join(String::from_str("expected a function template found `"), type_debug_text(&callee.type_).as_str()), "`");
                    self.report(Diagnostic::error(String::from_str("Expression cannot be specialized"), callee.span, text));
                }
                return HirExpression::error(expression.span);
            },
        };
        let function_id = match self.specialize_function(template_id, arguments, expression.span) {
            Some(id) => id,
            None => {
                return HirExpression::error(expression.span);
            },
        };
        let type_ = match self.functions.get(function_id) {
            Some(function) => {
                let mut parameters: Vec<Type> = Vec::new();
                let mut i: usize = 0;
                while i < function.hir.parameters.len()
                    decreases function.hir.parameters@.len() - i,
                {
                    parameters.push(function.hir.parameters[i].type_.duplicate());
                    i += 1;
                }
                Type::Function { parameters, return_type: Box::new(function.hir.return_type.duplicate()) }
            },
            None => {
                return HirExpression::error(expression.span);
            },
        };
        HirExpression { type_, span: expression.span, data: HirExpressionData::KnownFunction(function_id) }
    }

    fn analyze_call(&mut self, expression: &Expression, callee: &Expression, arguments: &Vec<Expression>, expected: Option<&Type>) -> (result: HirExpression)
        requires
            old(self).inv(),
        ensures
            final(self).refers_within(result),
            old(self).evolves(*final(self)),
            result.span == expression.span,
            result.data is Error ==> result.type_ is Error,
            meets_expected(result.type_, expected),
            call_typed(result),
            arguments_in_place(result, callee.span, arguments@),
        decreases old(self).fuel, 1nat,
    {
        let callee = self.analyze_expression(callee, None);
        if matches!(callee.type_, Type::Error) {
            return HirExpression::error(expression.span);
        }
        let ghost after_callee = *self;
        let (parameter_types, return_type) = match &callee.type_ {
            Type::Function { parameters, return_type } => {
                let mut copies: Vec<Type> = Vec::new();
                let mut i: usize = 0;
                while i < parameters.len()
                    invariant
                        copies@.len() == i,
                        i <= parameters@.len(),
                        forall|j: int| 0 <= j < i ==> type_eq(#[trigger] copies@[j], parameters@[j]),
                    decreases parameters@.len() - i,
                {
                    copies.push(parameters[i].duplicate());
                    i += 1;
                }
                (copies, return_type.duplicate())
            },
            actual_type => {
                let text = join(join(String::from_str("expected a function, found `"), type_debug_text(actual_type).as_str()), "`");
                self.report(Diagnostic::error(String::from_str("Expression is not callable"), callee.span, text));
                return HirExpression::error(expression.span);
            },
        };
        if arguments.len() != parameter_types.len() {
            let text = join(join(join(String::from_str("expected "), decimal_text(parameter_types.len() as i128).as_str()), " arguments, found "), decimal_text(arguments.len() as i128).as_str());
            self.report(Diagnostic::error(String::from_str("Incorrect number of arguments"), expression.span, text));
            return HirExpression::error(expression.span);
        }
        let mut hir_arguments: Vec<HirExpression> = Vec::new();
        let mut any_error = false;
        let mut i: usize = 0;
        while i < arguments.len()
            invariant
                old(self).evolves(*self),
                after_callee.evolves(*self),
                self.fuel < old(self).fuel || self.fuel <= old(self).fuel,
                arguments@.len() == parameter_types@.len(),
                i <= arguments@.len(),
                forall|j: int| 0 <= j < hir_arguments@.len() ==> self.refers_within(#[trigger] hir_arguments@[j]),
                hir_arguments@.len() == i,
                !any_error ==> forall|j: int| 0 <= j < i ==>
                    type_eq(parameter_types@[j], (#[trigger] hir_arguments@[j]).type_) || unchecked_result_type(hir_arguments@[j].type_)
                        || parameter_types@[j] is Error,
                forall|j: int| 0 <= j < i ==> (#[trigger] hir_arguments@[j]).span == arguments@[j].span,
            decreases arguments@.len() - i,
        {
            let ghost before = *self;
            let argument = self.analyze_expression(&arguments[i], Some(&parameter_types[i]));
            if matches!(argument.type_, Type::Error) {
                any_error = true;
            }
            proof {
                assert forall|j: int| 0 <= j < hir_arguments@.len() implies self.refers_within(#[trigger] hir_arguments@[j]) by {
                    before.lemma_within_persists(*self, hir_arguments@[j]);
                }
            }
            hir_arguments.push(argument);
            i += 1;
        }
        proof {
            after_callee.lemma_within_persists(*self, callee);
        }
        if any_error {
            return HirExpression::error(expression.span);
        }
        match expected {
            Some(expected_type) => {
                if !matches!(expected_type, Type::Error) && !expected_type.same_as(&return_type) {
                    let text = join(join(join(join(String::from_str("Expected `"), type_debug_text(expected_type).as_str()), "`, found `"), type_debug_text(&return_type).as_str()), "`");
                    self.report(Diagnostic::error(String::from_str("Call result has the wrong type"), expression.span, text));
                    return HirExpression::error(expression.span);
                }
            },
            None => {},
        }
        proof {
            let parameters = callee.type_->Function_parameters;
            lemma_type_eq_symmetric(return_type, *(callee.type_->Function_return_type));
            assert forall|j: int| 0 <= j < hir_arguments@.len() implies
                type_eq(parameters@[j], (#[trigger] hir_arguments@[j]).type_) || unchecked_result_type(hir_arguments@[j].type_)
                    || parameters@[j] is Error by {
                if !unchecked_result_type(hir_arguments@[j].type_) && !(parameter_types@[j] is Error) {
                    lemma_type_eq_symmetric(parameter_types@[j], parameters@[j]);
                    lemma_type_eq_transitive(parameters@[j], parameter_types@[j], hir_arguments@[j].type_);
                }
            }
        }
        HirExpression {
            span: expression.span,
            type_: return_type,
            data: HirExpressionData::Call { callee: Box::new(callee), arguments: hir_arguments },
        }
    }

    /// Resolves the type of a runtime parameter or a return type, reporting
    /// a type without runtime representation, which then counts as an error.
    fn resolve_runtime_type(&mut self, type_expression: &TypeExpression, description: &str) -> (result: Type)
        requires
            old(self).inv(),
        ensures
            old(self).evolves(*final(self)),
            old(self).fuel == 0 ==> result is Error,
            !unsized_at_runtime(result),
            old(self).fuel > 1 && type_expression.data is Unit ==> result == Type::Unit,
            old(self).fuel > 1 ==> (type_expression.data matches TypeExpressionData::Function { parameters, .. }
                ==> (result matches Type::Function { parameters: types, .. } && types@.len() == parameters@.len())),
            old(self).fuel > 1 && type_expression.data is Identifier && names_builtin(*old(self), type_expression.span, Type::Str) ==> {
                &&& result is Error
                &&& final(self).diagnostics@.len() == old(self).diagnostics@.len() + 1
                &&& final(self).diagnostics@.last()@.message == "`str` has no runtime representation"@
                &&& final(self).diagnostics@.last()@.primary.span == type_expression.span
                &&& final(self).diagnostics@.last()@.primary.text == description@
            },
        decreases old(self).fuel, 0nat,
    {
        if !self.tick(type_expression.span) {
            return Type::Error;
        }
        let type_ = self.resolve_type_expression(type_expression);
        if !self.validate_runtime_type(&type_, type_expression.span, description) {
            Type::Error
        } else {
            type_
        }
    }

    /// Declares the runtime parameters of a function in the current scope,
    /// reporting repeated names.
    fn declare_parameters(
        &mut self,
        parameters: &Vec<Parameter>,
        types: &Vec<Type>,
        names: &mut Vec<(String, Span)>,
    ) -> (hir_parameters: Vec<HirParameter>)
        requires
            old(self).inv(),
            parameters@.len() == types@.len(),
        ensures
            old(self).evolves(*final(self)),
            final(self).fuel == old(self).fuel,
            hir_parameters@.len() <= parameters@.len(),
            forall|j: int| 0 <= j < hir_parameters@.len() ==> (#[trigger] hir_parameters@[j]).symbol.0 < final(self).symbols.symbols@.len(),
            old(self).symbols.symbols@.len() + parameters@.len() < u32::MAX ==> {
                &&& hir_parameters@.len() == parameters@.len()
                &&& forall|j: int| 0 <= j < parameters@.len() ==> {
                    &&& (#[trigger] hir_parameters@[j]).name == parameters@[j].name
                    &&& hir_parameters@[j].span == parameters@[j].span
                    &&& type_eq(hir_parameters@[j].type_, types@[j])
                    &&& hir_parameters@[j].symbol.0 == old(self).symbols.symbols@.len() + j
                    &&& final(self).symbols.symbols@[hir_parameters@[j].symbol.0 as int].kind is Parameter
                }
            },
    {
        let mut hir_parameters: Vec<HirParameter> = Vec::new();
        let mut i: usize = 0;
        while i < parameters.len()
            invariant
                old(self).evolves(*self),
                self.fuel == old(self).fuel,
                parameters@.len() == types@.len(),
                i <= parameters@.len(),
                hir_parameters@.len() <= i,
                forall|j: int| 0 <= j < hir_parameters@.len() ==> (#[trigger] hir_parameters@[j]).symbol.0 < self.symbols.symbols@.len(),
                old(self).symbols.symbols@.len() + parameters@.len() < u32::MAX ==> {
                    &&& hir_parameters@.len() == i
                    &&& self.symbols.symbols@.len() == old(self).symbols.symbols@.len() + i
                    &&& self.symbols.symbols@.take(old(self).symbols.symbols@.len() as int) == old(self).symbols.symbols@
                    &&& forall|j: int| 0 <= j < i ==> {
                        &&& (#[trigger] hir_parameters@[j]).name == parameters@[j].name
                        &&& hir_parameters@[j].span == parameters@[j].span
                        &&& type_eq(hir_parameters@[j].type_, types@[j])
                        &&& hir_parameters@[j].symbol.0 == old(self).symbols.symbols@.len() + j
                        &&& self.symbols.symbols@[hir_parameters@[j].symbol.0 as int].kind is Parameter
                    }
                },
            decreases parameters@.len() - i,
        {
            let parameter = &parameters[i];
            let name = self.span_text(parameter.name);
            self.check_duplicate_parameter(names, &name, parameter.name);
            let symbol = Symbol {
                name: name.clone(),
                declaration_span: Some(parameter.name),
                kind: SymbolKind::Parameter,
                type_: types[i].duplicate(),
            };
            match self.add_symbol(symbol, parameter.name) {
                Some(symbol_id) => {
                    self.environment.define(name, symbol_id);
                    hir_parameters.push(HirParameter {
                        symbol: symbol_id,
                        name: parameter.name,
                        type_: types[i].duplicate(),
                        span: parameter.span,
                    });
                },
                None => {},
            }
            i += 1;
        }
        hir_parameters
    }

    /// Reports `name` when an earlier parameter of the same function has it,
    /// and remembers it otherwise.
    fn check_duplicate_parameter(&mut self, names: &mut Vec<(String, Span)>, name: &String, span: Span)
        requires
            old(self).inv(),
        ensures
            old(self).evolves(*final(self)),
            final(self).fuel == old(self).fuel,
            final(self).environment == old(self).environment,
            final(self).symbols == old(self).symbols,
            final(names)@.len() == old(names)@.len() + 1,
            final(names)@.drop_last() == old(names)@,
            final(names)@.last().0@ == name@ && final(names)@.last().1 == span,
            (exists|k: int| 0 <= k < old(names)@.len() && (#[trigger] old(names)@[k]).0@ == name@) ==> {
                &&& final(self).diagnostics@.len() == old(self).diagnostics@.len() + 1
                &&& final(self).diagnostics@.last()@.message == "Duplicate parameter name"@
            },
            !(exists|k: int| 0 <= k < old(names)@.len() && (#[trigger] old(names)@[k]).0@ == name@) ==>
                final(self).diagnostics == old(self).diagnostics,
    {
        let mut i: usize = 0;
        let mut previous: Option<Span> = None;
        while i < names.len()
            invariant
                i <= names@.len(),
                names@ == old(names)@,
                previous is Some <==> exists|k: int| 0 <= k < i && (#[trigger] names@[k]).0@ == name@,
            decreases names@.len() - i,
        {
            if names[i].0 == *name {
                previous = Some(names[i].1);
            }
            i += 1;
        }
        names.push((name.clone(), span));
        proof {
            assert(names@.drop_last() =~= old(names)@);
            reveal_strlit("Duplicate parameter name");
        }
        match previous {
            Some(old_span) => {
                let mut extra: Vec<Label> = Vec::new();
                extra.push(Label::new(old_span, String::from_str("already defined here")));
                self.report(Diagnostic::error_with_extra_labels(
                    String::from_str("Duplicate parameter name"),
                    span,
                    String::from_str("duplicate"),
                    extra,
                ));
            },
            None => {},
        }
    }

    fn analyze_function(&mut self, expression: &Expression, function: &Rc<FunctionExpression>) -> (result: HirExpression)
        requires
            old(self).inv(),
        ensures
            final(self).refers_within(result),
            old(self).evolves(*final(self)),
            result.span == expression.span,
            result.data is Error ==> result.type_ is Error,
            unchecked_result_type(result.type_),
        decreases old(self).fuel, 1nat,
    {
        if function.comptime_args.len() > 0 {
            if self.function_templates.len() >= 0xffff_ffff {
                self.report(error_str("Too many function templates", expression.span, "the compiler cannot name more templates"));
                return HirExpression::error(expression.span);
            }
            proof {
                let count = self.template_count();
                self.lemma_stored_within_grows(
                    self.symbols.symbols@.len(), self.function_count(), count,
                    self.symbols.symbols@.len(), self.function_count(), count + 1,
                );
            }
            let template_id = self.function_templates.insert(FunctionTemplate {
                ast: share(function),
                defining_scope: self.environment.current_scope(),
            });
            return HirExpression {
                type_: Type::FunctionTemplate(template_id),
                span: expression.span,
                data: HirExpressionData::FunctionTemplate(template_id),
            };
        }
        let return_type = self.resolve_runtime_type(&function.return_type, "functions cannot return unsized types at runtime");
        let mut parameter_types: Vec<Type> = Vec::new();
        let mut i: usize = 0;
        while i < function.runtime_args.len()
            invariant
                old(self).evolves(*self),
                self.fuel < old(self).fuel || self.fuel <= old(self).fuel,
                parameter_types@.len() == i,
                i <= function.runtime_args@.len(),
            decreases function.runtime_args@.len() - i,
        {
            let type_ = self.resolve_runtime_type(&function.runtime_args[i].type_annotation, "runtime parameters cannot store unsized values");
            parameter_types.push(type_);
            i += 1;
        }
        self.environment.push_scope();
        let ghost pushed = self.environment@;
        let mut names: Vec<(String, Span)> = Vec::new();
        let hir_parameters = self.declare_parameters(&function.runtime_args, &parameter_types, &mut names);
        let body = self.analyze_block(&function.body, &return_type);
        assert(self.environment@.scopes[pushed.current.0 as int].parent == pushed.scopes[pushed.current.0 as int].parent);
        self.environment.pop_scope();
        let function_type = Type::Function { parameters: parameter_types, return_type: Box::new(return_type.duplicate()) };
        let hir_function = HirFunctionExpression { parameters: hir_parameters, return_type, body };
        assert(self.block_within(hir_function.body));
        assert(forall|j: int| 0 <= j < hir_function.parameters@.len() ==>
            (#[trigger] hir_function.parameters@[j]).symbol.0 < self.symbols.symbols@.len());
        assert(self.function_within(hir_function));
        HirExpression {
            type_: function_type,
            span: expression.span,
            data: HirExpressionData::Function(Rc::new(hir_function)),
        }
    }

    fn analyze_name(&mut self, expression: &Expression, expected: Option<&Type>) -> (result: HirExpression)
        requires
            old(self).inv(),
        ensures
            final(self).refers_within(result),
            old(self).evolves(*final(self)),
            result.span == expression.span,
            result.data is Error ==> result.type_ is Error,
            meets_expected(result.type_, expected),
            result.data is Symbol || result.data is Error,
            result.data matches HirExpressionData::Symbol(symbol) ==> old(self).resolves_to(expression.span, symbol),
            match lookup_from_spec(old(self).environment@.scopes, old(self).environment@.current, text_at(old(self).sources, expression.span)) {
                None => {
                    &&& result.data is Error
                    &&& final(self).diagnostics@.len() == old(self).diagnostics@.len() + 1
                    &&& final(self).diagnostics@.last()@.message == "Identifier not bound"@
                    &&& final(self).diagnostics@.last()@.primary.span == expression.span
                },
                Some(s) => settled_type(old(self).symbols.symbols@[s.0 as int].type_)
                    && (expected matches Some(t) ==> (*t is Error || type_eq(*t, old(self).symbols.symbols@[s.0 as int].type_))) ==> {
                    &&& result.data == HirExpressionData::Symbol(s)
                    &&& type_eq(result.type_, old(self).symbols.symbols@[s.0 as int].type_)
                    &&& final(self).diagnostics == old(self).diagnostics
                },
            },
        decreases old(self).fuel, 1nat,
    {
        proof {
            reveal_strlit("Identifier not bound");
        }
        let name = self.span_text(expression.span);
        proof {
            lemma_lookup_gives_named_symbol(self.environment@, self.symbols.symbols@, self.environment@.current, name@);
        }
        let symbol_id = match self.environment.lookup(name.as_str()) {
            Some(id) => id,
            None => {
                let text = join(join(String::from_str("Identifier `"), name.as_str()), "` is not bound");
                self.report(Diagnostic::error(String::from_str("Identifier not bound"), expression.span, text));
                return HirExpression::error(expression.span);
            },
        };
        let mut actual_type = self.symbols.get(symbol_id).type_.duplicate();
        if matches!(actual_type, Type::Unknown) && self.pending_bindings.contains_key(&symbol_id.0) {
            if self.ensure_binding_elaborated(symbol_id).is_err() {
                return HirExpression::error(expression.span);
            }
            actual_type = self.symbols.get(symbol_id).type_.duplicate();
        }
        if matches!(actual_type, Type::Unknown) {
            let text = join(join(String::from_str("Identifier `"), name.as_str()), "` is not yet bound, in the future this will be allowed but rn stuff is evaluated top to bottom");
            self.report(Diagnostic::error(String::from_str("Identifier not yet bound"), expression.span, text));
            return HirExpression::error(expression.span);
        }
        if matches!(actual_type, Type::Error) {
            return HirExpression::error(expression.span);
        }
        proof {
            let declared = self.symbols.symbols@[symbol_id.0 as int].type_;
            if type_eq(actual_type, declared) {
                lemma_type_eq_symmetric(actual_type, declared);
                if expected is Some && type_eq(*expected->0, declared) {
                    lemma_type_eq_transitive(*expected->0, declared, actual_type);
                }
            }
        }
        match expected {
            Some(expected_type) => {
                if !matches!(expected_type, Type::Error) && !expected_type.same_as(&actual_type) {
                    let message = join(join(join(join(String::from_str("Expected an expression of type `"), type_debug_text(expected_type).as_str()), "` but got an expression of type `"), type_debug_text(&actual_type).as_str()), "`");
                    let text = join(join(String::from_str("Should be of type `"), type_debug_text(expected_type).as_str()), "`");
                    self.report(Diagnostic::error(message, expression.span, text));
                    return HirExpression::error(expression.span);
                }
            },
            None => {},
        }
        HirExpression { span: expression.span, type_: actual_type, data: HirExpressionData::Symbol(symbol_id) }
    }

    /// Elaborates a block in a scope of its own, checking returns against `return_type`.
    pub(crate) fn analyze_block(&mut self, block: &Block, return_type: &Type) -> (result: HirBlock)
        requires
            old(self).inv(),
        ensures
            final(self).block_within(result),
            old(self).evolves(*final(self)),
            result.span == block.span,
            result.statements@.len() == 0 || result.statements@.len() == block.statements@.len(),
            forall|k: int| 0 <= k < result.statements@.len() ==>
                statement_typed(block.statements@[k], #[trigger] result.statements@[k], *return_type),
        decreases old(self).fuel, 0nat,
    {
        if !self.tick(block.span) {
            return HirBlock { statements: Vec::new(), span: block.span };
        }
        self.environment.push_scope();
        let ghost inner = self.environment@;
        let mut statements: Vec<HirStatement> = Vec::new();
        let mut i: usize = 0;
        while i < block.statements.len()
            invariant
                self.inv(),
                self.fuel < old(self).fuel,
                self.target == old(self).target,
                self.sources == old(self).sources,
                old(self).diagnostics@.len() <= self.diagnostics@.len(),
                self.frames@ == old(self).frames@,
                old(self).symbols.symbols@.len() <= self.symbols.symbols@.len(),
                forall|k: int| 0 <= k < old(self).symbols.symbols@.len() ==>
                    #[trigger] self.symbols.symbols@[k].name == old(self).symbols.symbols@[k].name,
                old(self).function_count() <= self.function_count(),
                old(self).template_count() <= self.template_count(),
                self.environment@.current == inner.current,
                inner.scopes.len() <= self.environment@.scopes.len(),
                forall|k: int| 0 <= k < inner.scopes.len() ==>
                    #[trigger] self.environment@.scopes[k].parent == inner.scopes[k].parent,
                inner.scopes[inner.current.0 as int].parent == Some(old(self).environment@.current),
                inner.current.0 < inner.scopes.len(),
                old(self).environment@.scopes.len() <= inner.scopes.len(),
                forall|k: int| 0 <= k < old(self).environment@.scopes.len() ==>
                    #[trigger] inner.scopes[k].parent == old(self).environment@.scopes[k].parent,
                i <= block.statements@.len(),
                statements@.len() == i,
                forall|k: int| 0 <= k < i ==>
                    statement_typed(block.statements@[k], #[trigger] statements@[k], *return_type),
                forall|k: int| 0 <= k < i ==> self.statement_within(#[trigger] statements@[k]),
            decreases block.statements@.len() - i,
        {
            let ghost before = *self;
            let statement = self.analyze_statement(&block.statements[i], return_type);
            proof {
                assert forall|k: int| 0 <= k < i implies self.statement_within(#[trigger] statements@[k]) by {
                    before.lemma_statement_within_persists(*self, statements@[k]);
                }
            }
            statements.push(statement);
            i += 1;
        }
        assert(self.environment@.scopes[inner.current.0 as int].parent == inner.scopes[inner.current.0 as int].parent);
        self.environment.pop_scope();
        HirBlock { statements, span: block.span }
    }

    /// Elaborates a statement; a binding declares its local in the current scope.
    pub(crate) fn analyze_statement(&mut self, statement: &Statement, return_type: &Type) -> (result: HirStatement)
        requires
            old(self).inv(),
        ensures
            final(self).statement_within(result),
            old(self).evolves(*final(self)),
            result.span == statement.span,
            statement_typed(*statement, result, *return_type),
            result.data matches HirStatementData::Binding { symbol, .. } ==> statement.data matches StatementData::Binding(binding)
                && final(self).resolves_to(binding.name, symbol),
            old(self).fuel > 0 ==> statement_shape(*statement, result),
            old(self).fuel == 0 ==> result.data is Error,
            old(self).fuel > 0 && statement.data == StatementData::Return(None) ==> if *return_type is Unit {
                final(self).diagnostics == old(self).diagnostics
            } else {
                &&& final(self).diagnostics@.len() == old(self).diagnostics@.len() + 1
                &&& final(self).diagnostics@.last()@.message == "Return without value in function with non-unit return type"@
                &&& final(self).diagnostics@.last()@.primary.span == statement.span
            },
            old(self).fuel > 1 ==> match statement.data {
                StatementData::Return(Some(e)) => match *return_type {
                    Type::Integer(t) => e.data is IntegerLiteral ==> match integer_literal(crate::elaboration::text_at(old(self).sources, e.span)) {
                        Some(literal) => ((literal.suffix is None || literal.suffix == Some(t)) && literal.magnitude <= spec_maximum(t, old(self).target)) ==> {
                            &&& result.data matches HirStatementData::Return(Some(h))
                            &&& h.data == HirExpressionData::Integer(literal.magnitude as i128)
                            &&& h.type_ == Type::Integer(t)
                            &&& final(self).diagnostics == old(self).diagnostics
                        },
                        None => true,
                    },
                    _ => true,
                },
                _ => true,
            },
        decreases old(self).fuel, 0nat,
    {
        proof {
            reveal_strlit("Return without value in function with non-unit return type");
        }
        if !self.tick(statement.span) {
            return HirStatement::error(statement.span);
        }
        match &statement.data {
            StatementData::Expression(expression) => {
                let unit = Type::Unit;
                let expression = self.analyze_expression(expression, Some(&unit));
                HirStatement { span: statement.span, data: HirStatementData::Expression(expression) }
            },
            StatementData::Assignment { target, expression } => {
                let target = match self.analyze_place(target) {
                    Some(target) => target,
                    None => {
                        return HirStatement::error(statement.span);
                    },
                };
                let ghost after_target = *self;
                let target_type = target.type_.duplicate();
                let expression = self.analyze_expression(expression, Some(&target_type));
                proof {
                    after_target.lemma_place_within_persists(*self, target);
                    lemma_type_eq_symmetric(target_type, target.type_);
                    if type_eq(target_type, expression.type_) {
                        lemma_type_eq_transitive(target.type_, target_type, expression.type_);
                    }
                }
                HirStatement { span: statement.span, data: HirStatementData::Assignment { target, expression } }
            },
            StatementData::While(while_statement) => {
                let boolean = Type::Bool;
                let condition = self.analyze_expression(&while_statement.condition, Some(&boolean));
                let ghost after_condition = *self;
                let while_block = self.analyze_block(&while_statement.while_block, return_type);
                proof {
                    after_condition.lemma_within_persists(*self, condition);
                }
                HirStatement { span: statement.span, data: HirStatementData::While { condition, while_block } }
            },
            StatementData::If(if_statement) => {
                let boolean = Type::Bool;
                let condition = self.analyze_expression(&if_statement.condition, Some(&boolean));
                let ghost after_condition = *self;
                let then_block = self.analyze_block(&if_statement.then_block, return_type);
                let ghost after_then = *self;
                let else_branch = match &if_statement.else_ {
                    None => None,
                    Some(ElseBranch::Else(block)) => Some(HirElseBranch::Else(self.analyze_block(block, return_type))),
                    Some(ElseBranch::ElseIf(nested)) => {
                        let hir_statement = self.analyze_statement(nested, return_type);
                        Some(HirElseBranch::ElseIf(Box::new(hir_statement)))
                    },
                };
                proof {
                    after_condition.lemma_within_persists(*self, condition);
                    after_then.lemma_block_within_persists(*self, then_block);
                }
                HirStatement { span: statement.span, data: HirStatementData::If { condition, then_block, else_branch } }
            },
            StatementData::Binding(binding) => self.analyze_local_binding(statement, binding),
            StatementData::Return(expression) => {
                match expression {
                    None => {
                        if !matches!(return_type, Type::Unit) {
                            let text = join(join(String::from_str("Expected a `"), type_debug_text(return_type).as_str()), "`");
                            self.report(Diagnostic::error(
                                String::from_str("Return without value in function with non-unit return type"),
                                statement.span,
                                text,
                            ));
                        }
                        HirStatement { span: statement.span, data: HirStatementData::Return(None) }
                    },
                    Some(expression) => {
                        let hir_expression = self.analyze_expression(expression, Some(return_type));
                        HirStatement { span: statement.span, data: HirStatementData::Return(Some(hir_expression)) }
                    },
                }
            },
        }
    }

    fn analyze_local_binding(&mut self, statement: &Statement, binding: &Binding) -> (result: HirStatement)
        requires
            old(self).inv(),
        ensures
            final(self).statement_within(result),
            old(self).evolves(*final(self)),
            result.span == statement.span,
            result.data is Binding || result.data is Error,
            result.data matches HirStatementData::Binding { symbol, .. } ==> final(self).resolves_to(binding.name, symbol),
        decreases old(self).fuel, 1nat,
    {
        let name = self.span_text(binding.name);
        let annotated_type: Option<Type> = match &binding.type_annotation {
            Some(annotation) => Some(self.resolve_type_expression(annotation)),
            None => None,
        };
        let mut expression = match &annotated_type {
            Some(t) => self.analyze_expression(&binding.expression, Some(t)),
            None => self.analyze_expression(&binding.expression, None),
        };
        let ghost after_expression = *self;
        if !self.validate_runtime_type(&expression.type_, binding.expression.span, "runtime bindings cannot contain unsized types") {
            expression = HirExpression::error(binding.expression.span);
        }
        proof {
            lemma_lookup_gives_named_symbol(self.environment@, self.symbols.symbols@, self.environment@.current, name@);
        }
        match self.environment.lookup_current(name.as_str()) {
            Some(previous_id) => {
                let mut extra: Vec<Label> = Vec::new();
                match self.symbols.get(previous_id).declaration_span {
                    Some(span) => {
                        extra.push(Label::new(span, String::from_str("previously defined here")));
                    },
                    None => {},
                }
                self.report(Diagnostic::error_with_extra_labels(
                    String::from_str("Duplicate local binding"),
                    binding.name,
                    String::from_str("duplicate binding"),
                    extra,
                ));
            },
            None => {},
        }
        let symbol = Symbol {
            name: name.clone(),
            declaration_span: Some(binding.name),
            kind: SymbolKind::Local { mutable: binding.mutable },
            type_: expression.type_.duplicate(),
        };
        let symbol_id = match self.add_symbol(symbol, binding.name) {
            Some(id) => id,
            None => {
                return HirStatement::error(statement.span);
            },
        };
        proof {
            lemma_lookup_after_define(self.environment@, name@, symbol_id);
            after_expression.lemma_within_persists(*self, expression);
        }
        self.environment.define(name, symbol_id);
        HirStatement { span: statement.span, data: HirStatementData::Binding { symbol: symbol_id, expression } }
    }

    /// Resolves a type written in the program; unknown names and names of
    /// values are reported, and give the error type.
    pub(crate) fn resolve_type_expression(&mut self, expression: &TypeExpression) -> (result: Type)
        requires
            old(self).inv(),
        ensures
            old(self).evolves(*final(self)),
            old(self).fuel > 0 ==> match expression.data {
                TypeExpressionData::Unit => result == Type::Unit,
                TypeExpressionData::FixedArray { .. } => result is FixedArray || result is Error,
                TypeExpressionData::Function { parameters, .. } => result matches Type::Function { parameters: types, .. }
                    && types@.len() == parameters@.len(),
                TypeExpressionData::Identifier => resolves_type(*old(self), expression.span, result),
            },
            old(self).fuel > 0 && expression.data is Identifier ==> match type_name_failure(*old(self), expression.span) {
                Some(message) => {
                    &&& final(self).diagnostics@.len() == old(self).diagnostics@.len() + 1
                    &&& final(self).diagnostics@.last()@.message == message
                    &&& final(self).diagnostics@.last()@.primary.span == expression.span
                },
                None => final(self).diagnostics == old(self).diagnostics,
            },
            old(self).fuel > 0 && clean_type_name(*old(self), *expression) ==> {
                &&& final(self).fuel == old(self).fuel - 1
                &&& final(self).diagnostics == old(self).diagnostics
                &&& final(self).environment == old(self).environment
                &&& final(self).symbols == old(self).symbols
            },
            match expression.data {
                TypeExpressionData::Function { parameters, .. } => clean_function_type(*old(self), *expression)
                    && old(self).fuel > parameters@.len() + 2 ==> final(self).diagnostics == old(self).diagnostics,
                _ => true,
            },
        decreases old(self).fuel, 0nat,
    {
        if !self.tick(expression.span) {
            return Type::Error;
        }
        match &expression.data {
            TypeExpressionData::FixedArray { base_type, size } => {
                let size = match self.resolve_static_array_length(size) {
                    Some(size) => size,
                    None => {
                        return Type::Error;
                    },
                };
                let base = self.resolve_type_expression(base_type);
                Type::FixedArray { base_type: Box::new(base), size }
            },
            TypeExpressionData::Unit => Type::Unit,
            TypeExpressionData::Function { parameters, return_type } => {
                let mut parameter_types: Vec<Type> = Vec::new();
                let mut i: usize = 0;
                while i < parameters.len()
                    invariant
                        old(self).evolves(*self),
                        self.fuel < old(self).fuel,
                        i <= parameters@.len(),
                        parameter_types@.len() == i,
                        clean_function_type(*old(self), *expression) && old(self).fuel > parameters@.len() + 2 ==> {
                            &&& self.fuel == old(self).fuel - 1 - i
                            &&& self.diagnostics == old(self).diagnostics
                            &&& self.environment == old(self).environment
                            &&& self.symbols == old(self).symbols
                        },
                        expression.data == (TypeExpressionData::Function { parameters: *parameters, return_type: *return_type }),
                    decreases parameters@.len() - i,
                {
                    proof {
                        if clean_function_type(*old(self), *expression) && old(self).fuel > parameters@.len() + 2 {
                            let ps = expression.data->Function_parameters;
                            assert(ps@ == parameters@);
                            assert(clean_type_name(*old(self), ps@[i as int]));
                            assert(clean_type_name(*self, parameters@[i as int]));
                        }
                    }
                    let t = self.resolve_type_expression(&parameters[i]);
                    parameter_types.push(t);
                    i += 1;
                }
                proof {
                    if clean_function_type(*old(self), *expression) && old(self).fuel > parameters@.len() + 2 {
                        assert(clean_type_name(*self, **return_type));
                    }
                }
                let return_type = self.resolve_type_expression(return_type);
                Type::Function { parameters: parameter_types, return_type: Box::new(return_type) }
            },
            TypeExpressionData::Identifier => {
                let name = self.span_text(expression.span);
                proof {
                    lemma_lookup_gives_named_symbol(self.environment@, self.symbols.symbols@, self.environment@.current, name@);
                }
                let symbol_id = match self.environment.lookup(name.as_str()) {
                    Some(id) => id,
                    None => {
                        self.report(error_str("Unknown Type", expression.span, ":("));
                        return Type::Error;
                    },
                };
                match &self.symbols.get(symbol_id).kind {
                    SymbolKind::BuiltinType(type_) => type_.duplicate(),
                    _ => {
                        self.report(error_str("Expected a Type found a Value", expression.span, ":("));
                        Type::Error
                    },
                }
            },
        }
    }

    /// Elaborates a top-level binding and records its type on its symbol.
    pub(crate) fn analyze_binding(&mut self, binding: &Binding, span: Span, symbol_id: SymbolId) -> (result: Option<HirBinding>)
        requires
            old(self).inv(),
        ensures
            result matches Some(hir) ==> final(self).refers_within(hir.expression),
            old(self).evolves(*final(self)),
            result matches Some(hir) ==> hir.symbol == symbol_id && hir.span == span,
            result is Some <==> old(self).fuel > 0,
            result matches Some(hir) ==> hir.phase == binding.phase && hir.mutable == binding.mutable,
            result matches Some(hir) ==> (symbol_id.0 < final(self).symbols.symbols@.len()
                ==> type_eq(final(self).symbols.symbols@[symbol_id.0 as int].type_, hir.expression.type_)),
            literal_binding(*binding, old(self).sources, old(self).target) && old(self).fuel > 1 ==> (result matches Some(hir)
                && hir.expression.data is Integer && hir.expression.type_ is Integer
                && final(self).diagnostics == old(self).diagnostics
                && final(self).fuel == old(self).fuel - 2
                && final(self).symbols.symbols@.len() == old(self).symbols.symbols@.len()
                && (symbol_id.0 < old(self).symbols.symbols@.len() ==>
                    final(self).symbols.symbols@[symbol_id.0 as int].kind == old(self).symbols.symbols@[symbol_id.0 as int].kind)),
        decreases old(self).fuel, 0nat,
    {
        if !self.tick(span) {
            return None;
        }
        let type_annotation: Option<Type> = match &binding.type_annotation {
            Some(annotation) => Some(self.resolve_type_expression(annotation)),
            None => None,
        };
        let hir_expression = match &type_annotation {
            Some(t) => self.analyze_expression(&binding.expression, Some(t)),
            None => self.analyze_expression(&binding.expression, None),
        };
        if (symbol_id.0 as usize) < self.symbols.symbols.len() {
            let new_type = hir_expression.type_.duplicate();
            self.symbols.get_mut(symbol_id).type_ = new_type;
        }
        Some(HirBinding {
            symbol: symbol_id,
            span,
            phase: binding.phase,
            mutable: binding.mutable,
            expression: hir_expression,
        })
    }

    /// Elaborates the target of an assignment: a mutable local, or an
    /// element of a local array.
    #[verifier::rlimit(60)]
    pub(crate) fn analyze_place(&mut self, target: &Expression) -> (result: Option<HirPlace>)
        requires
            old(self).inv(),
        ensures
            result matches Some(p) ==> final(self).place_within(p),
            old(self).evolves(*final(self)),
            old(self).fuel == 0 ==> result is None,
            !(target.data is Name || target.data is Index) ==> result is None,
            !(target.data is Name || target.data is Index) && old(self).fuel > 0 ==> {
                &&& final(self).diagnostics@.len() == old(self).diagnostics@.len() + 1
                &&& final(self).diagnostics@.last()@.message == "Invalid assignment target"@
                &&& final(self).diagnostics@.last()@.primary.span == target.span
            },
            target.data is Name && old(self).fuel > 0 ==> match lookup_from_spec(old(self).environment@.scopes, old(self).environment@.current,
                text_at(old(self).sources, target.span)) {
                None => final(self).diagnostics@.len() == old(self).diagnostics@.len() + 1
                    && final(self).diagnostics@.last()@.message == "Unknown assignment target"@
                    && final(self).diagnostics@.last()@.primary.span == target.span,
                Some(s) => if old(self).symbols.symbols@[s.0 as int].kind == (SymbolKind::Local { mutable: true }) {
                    final(self).diagnostics == old(self).diagnostics
                } else {
                    final(self).diagnostics@.len() == old(self).diagnostics@.len() + 1
                        && final(self).diagnostics@.last()@.message == "Cannot assign to immutable binding"@
                        && final(self).diagnostics@.last()@.primary.span == target.span
                },
            },
            target.data is Name ==> match result {
                Some(p) => p.data matches HirPlaceData::Symbol(s) && old(self).resolves_to(target.span, s)
                    && p.span == target.span && type_eq(p.type_, old(self).symbols.symbols@[s.0 as int].type_),
                None => old(self).fuel == 0 || lookup_from_spec(old(self).environment@.scopes, old(self).environment@.current,
                    text_at(old(self).sources, target.span)) is None,
            },
            target.data is Index ==> (result matches Some(p) ==> (p.data matches HirPlaceData::Index { index, array_size, .. }
                && (index.data matches HirExpressionData::Integer(v) ==> 0 <= v < array_size))),
        decreases old(self).fuel, 0nat,
    {
        proof {
            reveal_strlit("Invalid assignment target");
            reveal_strlit("Unknown assignment target");
            reveal_strlit("Cannot assign to immutable binding");
        }
        if !self.tick(target.span) {
            return None;
        }
        match &target.data {
            ExpressionData::Name => {
                let name = self.span_text(target.span);
                proof {
                    lemma_lookup_gives_named_symbol(self.environment@, self.symbols.symbols@, self.environment@.current, name@);
                }
                let symbol_id = match self.environment.lookup(name.as_str()) {
                    Some(id) => id,
                    None => {
                        let text = join(join(String::from_str("`"), name.as_str()), "` is not defined");
                        self.report(Diagnostic::error(String::from_str("Unknown assignment target"), target.span, text));
                        return None;
                    },
                };
                let (type_, mutable) = {
                    let symbol = self.symbols.get(symbol_id);
                    (symbol.type_.duplicate(), matches!(symbol.kind, SymbolKind::Local { mutable: true }))
                };
                if !mutable {
                    let text = join(join(String::from_str("`"), name.as_str()), "` is not mutable");
                    self.report(Diagnostic::error(String::from_str("Cannot assign to immutable binding"), target.span, text));
                }
                Some(HirPlace { span: target.span, type_, data: HirPlaceData::Symbol(symbol_id) })
            },
            ExpressionData::Index { base, index } => {
                let base_place = match self.analyze_place(base) {
                    Some(place) => place,
                    None => {
                        return None;
                    },
                };
                let array = match base_place.data {
                    HirPlaceData::Symbol(array) => array,
                    _ => {
                        self.report(error_str("Unsupported assignment target", base.span, "nested indexed places are not supported yet"));
                        return None;
                    },
                };
                let (array_size, element_type) = match base_place.type_ {
                    Type::FixedArray { size, base_type } => (size, *base_type),
                    _ => {
                        self.report(error_str("Value is not indexable", base.span, "assignment target must be an array"));
                        return None;
                    },
                };
                let usize_type = Type::Integer(IntegerType::Usize);
                let index = self.analyze_expression(index, Some(&usize_type));
                if matches!(index.type_, Type::Error) {
                    return None;
                }
                match &index.data {
                    HirExpressionData::Integer(value) => {
                        let valid = *value >= 0 && *value < array_size as i128;
                        if !valid {
                            let text = join(join(join(join(String::from_str("array length is "), decimal_text(array_size as i128).as_str()), ", but the index is `"), decimal_text(*value).as_str()), "`");
                            self.report(Diagnostic::error(String::from_str("Array index out of bounds"), index.span, text));
                            return None;
                        }
                    },
                    _ => {},
                }
                Some(HirPlace { span: target.span, type_: element_type, data: HirPlaceData::Index { array, index, array_size } })
            },
            _ => {
                self.report(error_str("Invalid assignment target", target.span, "this expression does not identify writable storage"));
                None
            },
        }
    }

    /// Evaluates the length of an array at compile time: a `usize` value.
    pub(crate) fn resolve_static_array_length(&mut self, expression: &Expression) -> (result: Option<usize>)
        requires
            old(self).inv(),
        ensures
            old(self).evolves(*final(self)),
            old(self).fuel == 0 ==> result is None,
            expression.data is IntegerLiteral && old(self).fuel > 2 ==> match integer_literal(text_at(old(self).sources, expression.span)) {
                Some(literal) => (literal.suffix is None || literal.suffix == Some(IntegerType::Usize))
                    && literal.magnitude <= spec_maximum(IntegerType::Usize, old(self).target) && literal.magnitude <= usize::MAX
                    ==> result == Some(literal.magnitude as usize),
                None => result is None,
            },
        decreases old(self).fuel, 0nat,
    {
        if !self.tick(expression.span) {
            return None;
        }
        let usize_type = Type::Integer(IntegerType::Usize);
        let hir = self.analyze_expression(expression, Some(&usize_type));
        if matches!(hir.type_, Type::Error) {
            return None;
        }
        let value = self.evaluate_expression(&hir);
        match value {
            ComptimeValue::Integer { value, type_: IntegerType::Usize } => {
                if value >= 0 && value <= usize::MAX as i128 {
                    Some(value as usize)
                } else {
                    let text = join(join(String::from_str("`"), decimal_text(value).as_str()), "` is not a valid array length");
                    self.report(Diagnostic::error(String::from_str("Invalid array length"), expression.span, text));
                    None
                }
            },
            ComptimeValue::Error => None,
            _ => {
                self.report(error_str("Array length is not an integer", expression.span, "expected a compile-time `usize` value"));
                None
            },
        }
    }

    /// Reads the integer literal at `span`, reporting one that is too large
    /// or has an unknown suffix.
    fn parse_integer_literal(&mut self, span: Span) -> (result: Option<ParsedIntegerLiteral>)
        requires
            old(self).inv(),
        ensures
            old(self).evolves(*final(self)),
            final(self).fuel == old(self).fuel,
            result == integer_literal(crate::elaboration::text_at(old(self).sources, span)),
            final(self).symbols == old(self).symbols,
            result is Some ==> final(self).diagnostics == old(self).diagnostics,
            result is None ==> final(self).diagnostics@.len() == old(self).diagnostics@.len() + 1,
    {
        let text = self.span_text(span);
        let chars = crate::source::chars_of(text.as_str());
        match read_integer_literal(&chars) {
            Ok(literal) => Some(literal),
            Err(LiteralError::TooLarge) => {
                self.report(error_str("Integer literal is too large", span, "this literal cannot be represented by the compiler"));
                None
            },
            Err(LiteralError::UnknownSuffix) => {
                let mut end: usize = 0;
                while end < chars.len() && is_digit(chars[end])
                    invariant
                        end <= chars@.len(),
                    decreases chars@.len() - end,
                {
                    end += 1;
                }
                let mut suffix: Vec<char> = Vec::new();
                let mut k: usize = end;
                while k < chars.len()
                    invariant
                        end <= k <= chars@.len(),
                    decreases chars@.len() - k,
                {
                    suffix.push(chars[k]);
                    k += 1;
                }
                let suffix_text = crate::source::string_from_chars(suffix.as_slice());
                let text = join(join(String::from_str("`"), suffix_text.as_str()), "` is not a supported integer suffix");
                self.report(Diagnostic::error(String::from_str("Unknown integer suffix"), span, text));
                None
            },
        }
    }

    /// Elaborates an integer literal, negated when `negate`: its type is its
    /// suffix, else the expected integer type, else `i64`, and its value must
    /// fit in that type.
    fn analyze_integer_literal(&mut self, expression: &Expression, result_span: Span, expected: Option<&Type>, negate: bool) -> (result: HirExpression)
        requires
            old(self).inv(),
        ensures
            final(self).refers_within(result),
            old(self).evolves(*final(self)),
            final(self).fuel == old(self).fuel,
            final(self).symbols == old(self).symbols,
            result.span == result_span,
            result.data is Error ==> result.type_ is Error,
            meets_expected(result.type_, expected),
            match result.data {
                HirExpressionData::Integer(value) => {
                    let literal = integer_literal(crate::elaboration::text_at(old(self).sources, expression.span));
                    &&& literal is Some
                    &&& result.type_ == Type::Integer(literal_type(literal.unwrap().suffix, expected))
                    &&& value == (if negate { -(literal.unwrap().magnitude as int) } else { literal.unwrap().magnitude as int })
                    &&& spec_minimum(result.type_->Integer_0, old(self).target) <= value <= spec_maximum(result.type_->Integer_0, old(self).target)
                    &&& negate ==> spec_is_signed(result.type_->Integer_0)
                },
                HirExpressionData::Error => true,
                _ => false,
            },
            !negate ==> match expected {
                Some(e) => match *e {
                    Type::Integer(t) => match integer_literal(crate::elaboration::text_at(old(self).sources, expression.span)) {
                        Some(literal) => ((literal.suffix is None || literal.suffix == Some(t))
                            && literal.magnitude <= spec_maximum(t, old(self).target))
                            ==> (result.data == HirExpressionData::Integer(literal.magnitude as i128) && result.type_ == Type::Integer(t)
                                && final(self).diagnostics == old(self).diagnostics),
                        None => result.data is Error,
                    },
                    _ => true,
                },
                None => match integer_literal(crate::elaboration::text_at(old(self).sources, expression.span)) {
                    Some(literal) => literal.magnitude <= spec_maximum(literal_type(literal.suffix, None), old(self).target)
                        ==> (result.data == HirExpressionData::Integer(literal.magnitude as i128)
                            && result.type_ == Type::Integer(literal_type(literal.suffix, None))
                            && final(self).diagnostics == old(self).diagnostics),
                    None => result.data is Error,
                },
            },
            match integer_literal(crate::elaboration::text_at(old(self).sources, expression.span)) {
                Some(literal) => match literal_failure(literal, expected, negate, old(self).target) {
                    Some(message) => {
                        &&& result.data is Error
                        &&& final(self).diagnostics@.len() == old(self).diagnostics@.len() + 1
                        &&& final(self).diagnostics@.last()@.message == message
                        &&& final(self).diagnostics@.last()@.primary.span == result_span
                    },
                    None => result.data is Integer && final(self).diagnostics == old(self).diagnostics,
                },
                None => result.data is Error,
            },
    {
        let literal = match self.parse_integer_literal(expression.span) {
            Some(literal) => literal,
            None => {
                return HirExpression::error(result_span);
            },
        };
        let expected_integer: Option<IntegerType> = match expected {
            Some(t) => t.as_integer(),
            None => None,
        };
        let integer_type = match literal.suffix {
            Some(suffix) => {
                match expected_integer {
                    Some(expected_integer) => {
                        if expected_integer != suffix {
                            let text = join(join(join(join(String::from_str("expected `"), expected_integer.name()), "`, but this literal has type `"), suffix.name()), "`");
                            self.report(Diagnostic::error(String::from_str("Integer type mismatch"), result_span, text));
                            return HirExpression::error(result_span);
                        }
                    },
                    None => {},
                }
                suffix
            },
            None => {
                match expected {
                    Some(expected) => match expected.as_integer() {
                        Some(integer) => integer,
                        None => {
                            let text = join(join(String::from_str("expected `"), type_debug_text(expected).as_str()), "`, but found an integer literal");
                            self.report(Diagnostic::error(String::from_str("Type mismatch"), result_span, text));
                            return HirExpression::error(result_span);
                        },
                    },
                    None => IntegerType::I64,
                }
            },
        };
        match expected {
            Some(expected) => {
                if !expected.is_integer() {
                    let text = join(join(join(join(String::from_str("expected `"), type_debug_text(expected).as_str()), "`, but found `"), integer_type.name()), "`");
                    self.report(Diagnostic::error(String::from_str("Type mismatch"), result_span, text));
                    return HirExpression::error(result_span);
                }
            },
            None => {},
        }
        if negate && !integer_type.is_signed() {
            let text = join(join(String::from_str("`"), integer_type.name()), "` is unsigned");
            self.report(Diagnostic::error(String::from_str("Cannot negate an unsigned integer"), result_span, text));
            return HirExpression::error(result_span);
        }
        let magnitude = literal.magnitude as i128;
        let value = if negate { -magnitude } else { magnitude };
        if !integer_type.contains(value, &self.target) {
            let text = join(join(join(join(String::from_str("`"), decimal_text(value).as_str()), "` does not fit in `"), integer_type.name()), "`");
            self.report(Diagnostic::error(String::from_str("Integer literal out of range"), result_span, text));
            return HirExpression::error(result_span);
        }
        HirExpression { type_: Type::Integer(integer_type), span: result_span, data: HirExpressionData::Integer(value) }
    }

    /// Specializes the template `template_id` for the compile-time values of
    /// `arguments`; each specialization is elaborated once and reused.
    /// The template `template_id` takes no compile-time, nor runtime,
    /// parameters, returns `unit`, was defined in an existing scope, and no
    /// specialization of it without arguments is under way.
    spec fn parameterless_template(&self, template_id: FunctionTemplateId) -> bool {
        &&& template_id.0 < self.template_count()
        &&& self.function_templates.view_templates()[template_id.0 as int].ast.comptime_args@.len() == 0
        &&& self.function_templates.view_templates()[template_id.0 as int].defining_scope.0 < self.environment@.scopes.len()
    }

    spec fn plain_template(&self, template_id: FunctionTemplateId) -> bool {
        &&& template_id.0 < self.template_count()
        &&& self.function_templates.view_templates()[template_id.0 as int].ast.comptime_args@.len() == 0
        &&& self.function_templates.view_templates()[template_id.0 as int].ast.runtime_args@.len() == 0
        &&& self.function_templates.view_templates()[template_id.0 as int].ast.return_type.data is Unit
        &&& self.function_templates.view_templates()[template_id.0 as int].defining_scope.0 < self.environment@.scopes.len()
        &&& forall|a: int| 0 <= a < self.active_specializations@.len() ==>
            !((#[trigger] self.active_specializations@[a]).template == template_id && self.active_specializations@[a].arguments@.len() == 0)
    }

    fn specialize_function(&mut self, template_id: FunctionTemplateId, arguments: &Vec<Expression>, span: Span) -> (result: Option<FunctionId>)
        requires
            old(self).inv(),
        ensures
            old(self).evolves(*final(self)),
            result matches Some(id) ==> id.0 < final(self).function_count(),
            template_id.0 >= old(self).template_count() ==> result is None,
            result matches Some(id) ==> exists|k: int| 0 <= k < final(self).specializations@.len()
                && (#[trigger] final(self).specializations@[k]).0.template == template_id && final(self).specializations@[k].1 == id,
            old(self).fuel > 4 && arguments@.len() == 0 && old(self).plain_template(template_id)
                ==> (result is Some || final(self).function_count() >= 0xffff_ffff),
            old(self).fuel > 0 && arguments@.len() == 0 && old(self).parameterless_template(template_id) ==>
                match first_cached(old(self).specializations@, template_id) {
                    Some(s) => result == Some(old(self).specializations@[s].1),
                    None => true,
                },
        decreases old(self).fuel, 0nat,
    {
        if !self.tick(span) {
            return None;
        }
        let (function, defining_scope) = match self.function_templates.get(template_id) {
            Some(template) => (share(&template.ast), template.defining_scope),
            None => {
                return None;
            },
        };
        if arguments.len() != function.comptime_args.len() {
            let text = join(join(join(String::from_str("expected "), decimal_text(function.comptime_args.len() as i128).as_str()), ", found "), decimal_text(arguments.len() as i128).as_str());
            self.report(Diagnostic::error(String::from_str("Incorrect number of comptime arguments"), span, text));
            return None;
        }
        if !self.scope_exists(defining_scope) {
            return None;
        }
        let previous_scope = self.environment.switch_scope(defining_scope);
        let mut comptime_types: Vec<Type> = Vec::new();
        let mut any_error = false;
        let mut i: usize = 0;
        while i < function.comptime_args.len()
            invariant
                old(self).inv(),
                self.inv(),
                self.fuel < old(self).fuel,
                self.target == old(self).target,
                self.sources == old(self).sources,
                old(self).diagnostics@.len() <= self.diagnostics@.len(),
                self.frames@ == old(self).frames@,
                old(self).symbols.symbols@.len() <= self.symbols.symbols@.len(),
                forall|k: int| 0 <= k < old(self).symbols.symbols@.len() ==>
                    #[trigger] self.symbols.symbols@[k].name == old(self).symbols.symbols@[k].name,
                old(self).function_count() <= self.function_count(),
                old(self).template_count() <= self.template_count(),
                self.environment@.current == defining_scope,
                old(self).environment@.scopes.len() <= self.environment@.scopes.len(),
                forall|k: int| 0 <= k < old(self).environment@.scopes.len() ==>
                    #[trigger] self.environment@.scopes[k].parent == old(self).environment@.scopes[k].parent,
                previous_scope == old(self).environment@.current,
                comptime_types@.len() == i,
                i <= function.comptime_args@.len(),
                function.comptime_args@.len() == 0 ==> self.fuel == old(self).fuel - 1 && !any_error
                    && self.specializations == old(self).specializations
                    && self.active_specializations == old(self).active_specializations
                    && self.environment@.scopes.len() == old(self).environment@.scopes.len(),
            decreases function.comptime_args@.len() - i,
        {
            let t = self.resolve_type_expression(&function.comptime_args[i].type_annotation);
            if matches!(t, Type::Error) {
                any_error = true;
            }
            comptime_types.push(t);
            i += 1;
        }
        self.environment.switch_scope(previous_scope);
        if any_error {
            return None;
        }
        let mut values: Vec<ComptimeValue> = Vec::new();
        let mut key_arguments: Vec<ComptimeKey> = Vec::new();
        let mut k: usize = 0;
        while k < arguments.len()
            invariant
                old(self).evolves(*self),
                self.fuel < old(self).fuel,
                arguments@.len() == function.comptime_args@.len(),
                comptime_types@.len() == arguments@.len(),
                k <= arguments@.len(),
                values@.len() == k,
                key_arguments@.len() == k,
                arguments@.len() == 0 ==> self.fuel == old(self).fuel - 1
                    && self.specializations == old(self).specializations
                    && self.active_specializations == old(self).active_specializations
                    && self.environment@.scopes.len() == old(self).environment@.scopes.len(),
            decreases arguments@.len() - k,
        {
            let hir_argument = self.analyze_expression(&arguments[k], Some(&comptime_types[k]));
            if matches!(hir_argument.type_, Type::Error) {
                return None;
            }
            let value = self.evaluate_expression(&hir_argument);
            if value.is_error() {
                return None;
            }
            match self.comptime_key(&value, function.comptime_args[k].span) {
                Some(key) => {
                    key_arguments.push(key);
                },
                None => {
                    return None;
                },
            }
            values.push(value);
            k += 1;
        }
        let key = SpecializationKey { template: template_id, arguments: key_arguments };
        let mut s: usize = 0;
        while s < self.specializations.len()
            invariant
                s <= self.specializations@.len(),
                arguments@.len() == 0 ==> key.arguments@.len() == 0
                    && self.specializations == old(self).specializations
                    && first_cached(self.specializations@, template_id) == first_cached_from(self.specializations@, template_id, s as int),
                template_id.0 < old(self).template_count(),
                key.template == template_id,
                old(self).evolves(*self),
                self.fuel < old(self).fuel,
                arguments@.len() == 0 ==> self.fuel == old(self).fuel - 1
                    && self.active_specializations == old(self).active_specializations
                    && self.environment@.scopes.len() == old(self).environment@.scopes.len(),
            decreases self.specializations@.len() - s,
        {
            if self.specializations[s].0.same_as(&key) {
                return Some(self.specializations[s].1);
            }
            s += 1;
        }
        let mut a: usize = 0;
        while a < self.active_specializations.len()
            invariant
                a <= self.active_specializations@.len(),
                arguments@.len() == 0 ==> first_cached(old(self).specializations@, template_id) is None,
                old(self).evolves(*self),
                self.fuel < old(self).fuel,
                arguments@.len() == 0 && old(self).plain_template(template_id) && old(self).fuel > 4 ==> {
                    &&& self.active_specializations == old(self).active_specializations
                    &&& key.template == template_id && key.arguments@.len() == 0
                    &&& self.fuel == old(self).fuel - 1
                    &&& self.environment@.scopes.len() == old(self).environment@.scopes.len()
                    &&& old(self).plain_template(template_id)
                },
            decreases self.active_specializations@.len() - a,
        {
            if self.active_specializations[a].same_as(&key) {
                self.report(error_str("Recursive specialization", span, "this specialization depends on itself"));
                return None;
            }
            a += 1;
        }
        self.active_specializations.push(SpecializationKey { template: key.template, arguments: duplicate_keys(&key.arguments) });
        let function_id = self.elaborate_specialization(&function, values, defining_scope);
        self.remove_active_specialization(&key);
        match function_id {
            Some(id) => {
                let ghost key_template = key.template;
                self.specializations.push((key, id));
                assert(self.specializations@[self.specializations@.len() - 1].0.template == key_template);
                Some(id)
            },
            None => None,
        }
    }

    /// Forgets that the specialization `key` is being elaborated.
    fn remove_active_specialization(&mut self, key: &SpecializationKey)
        requires
            old(self).inv(),
        ensures
            old(self).evolves(*final(self)),
            final(self).fuel == old(self).fuel,
            final(self).active_specializations@ == old(self).active_specializations@.filter(|e: SpecializationKey| !specialization_key_eq(e, *key)),
    {
        let mut kept: Vec<SpecializationKey> = Vec::new();
        let mut active: Vec<SpecializationKey> = Vec::new();
        std::mem::swap(&mut active, &mut self.active_specializations);
        let ghost original = active@;
        let ghost pred = |e: SpecializationKey| !specialization_key_eq(e, *key);
        let ghost mut n: int = 0;
        assert(original.take(0).filter(pred) =~= Seq::<SpecializationKey>::empty());
        assert(original.subrange(0, original.len() as int) =~= original);
        while active.len() > 0
            invariant
                0 <= n <= original.len(),
                active@ == original.subrange(n, original.len() as int),
                kept@ == original.take(n).filter(pred),
                pred == (|e: SpecializationKey| !specialization_key_eq(e, *key)),
            decreases active@.len(),
        {
            let entry = active.remove(0);
            proof {
                assert(entry == original[n]);
                assert(original.take(n + 1) =~= original.take(n).push(original[n]));
                original.take(n).lemma_filter_push(original[n], pred);
                assert(active@ =~= original.subrange(n + 1, original.len() as int));
                assert(original.take(n + 1).filter(pred) == (if pred(original[n]) {
                    original.take(n).filter(pred).push(original[n])
                } else {
                    original.take(n).filter(pred)
                }));
                assert(pred(original[n]) == !specialization_key_eq(entry, *key));
            }
            if !entry.same_as(key) {
                kept.push(entry);
            }
            proof {
                n = n + 1;
            }
        }
        proof {
            assert(n == original.len());
            assert(original.take(n) =~= original);
        }
        self.active_specializations = kept;
    }

    /// Elaborates `function` for the compile-time `values` of its
    /// compile-time parameters, in a scope nested in `defining_scope`.
    fn elaborate_specialization(&mut self, function: &FunctionExpression, values: Vec<ComptimeValue>, defining_scope: crate::symbols::ScopeId) -> (result: Option<FunctionId>)
        requires
            old(self).inv(),
        ensures
            old(self).evolves(*final(self)),
            result matches Some(id) ==> id.0 < final(self).function_count(),
            result matches Some(id) ==> id.0 + 1 == final(self).function_count(),
            defining_scope.0 >= old(self).environment@.scopes.len() ==> result is None,
            function.comptime_args@.len() == 0 && function.runtime_args@.len() == 0 && function.return_type.data is Unit
                && old(self).fuel > 3 && defining_scope.0 < old(self).environment@.scopes.len()
                ==> (result is Some || final(self).function_count() >= 0xffff_ffff),
            result matches Some(id) ==> binds_given_values(final(self).functions.view_functions()[id.0 as int], values@),
            result matches Some(id) ==> fully_typed(final(self).functions.view_functions()[id.0 as int]),
        decreases old(self).fuel, 0nat,
    {
        if !self.tick(function.body.span) {
            return None;
        }
        if !self.scope_exists(defining_scope) {
            return None;
        }
        let previous_scope = self.environment.switch_scope(defining_scope);
        self.environment.push_scope();
        let ghost pushed = self.environment@;
        let result = self.elaborate_specialization_in_scope(function, values);
        assert(self.environment@.scopes[pushed.current.0 as int].parent == pushed.scopes[pushed.current.0 as int].parent);
        self.environment.pop_scope();
        self.environment.switch_scope(previous_scope);
        result
    }

    /// The part of [`Self::elaborate_specialization`] that runs in the
    /// specialization's own scope.
    fn elaborate_specialization_in_scope(&mut self, function: &FunctionExpression, values: Vec<ComptimeValue>) -> (result: Option<FunctionId>)
        requires
            old(self).inv(),
        ensures
            old(self).evolves(*final(self)),
            result matches Some(id) ==> id.0 < final(self).function_count(),
            result matches Some(id) ==> id.0 + 1 == final(self).function_count(),
            function.comptime_args@.len() == 0 && function.runtime_args@.len() == 0 && function.return_type.data is Unit
                && old(self).fuel > 2 ==> (result is Some || final(self).function_count() >= 0xffff_ffff),
            result matches Some(id) ==> binds_given_values(final(self).functions.view_functions()[id.0 as int], values@),
            result matches Some(id) ==> fully_typed(final(self).functions.view_functions()[id.0 as int]),
        decreases old(self).fuel, 0nat,
    {
        if !self.tick(function.body.span) {
            return None;
        }
        let mut captures: Vec<(SymbolId, ComptimeValue)> = Vec::new();
        let mut names: Vec<(String, Span)> = Vec::new();
        let mut i: usize = 0;
        while i < function.comptime_args.len() && i < values.len()
            invariant
                old(self).evolves(*self),
                self.fuel < old(self).fuel,
                i <= function.comptime_args@.len(),
                i <= values@.len(),
                captures@.len() == i,
                i == 0 ==> self.fuel == old(self).fuel - 1,
            decreases function.comptime_args@.len() - i,
        {
            let parameter = &function.comptime_args[i];
            let type_ = self.resolve_type_expression(&parameter.type_annotation);
            if matches!(type_, Type::Error) {
                return None;
            }
            let name = self.span_text(parameter.name);
            self.check_duplicate_parameter(&mut names, &name, parameter.name);
            let symbol = Symbol {
                name: name.clone(),
                declaration_span: Some(parameter.name),
                kind: SymbolKind::ComptimeParameter,
                type_,
            };
            let symbol_id = match self.add_symbol(symbol, parameter.name) {
                Some(id) => id,
                None => {
                    return None;
                },
            };
            self.environment.define(name, symbol_id);
            captures.push((symbol_id, values[i].duplicate()));
            i += 1;
        }
        let ghost outer = self.frames@;
        self.frames.push(duplicate_frame(&captures));
        let return_type = self.resolve_runtime_type(&function.return_type, "functions cannot return unsized types at runtime");
        let mut parameter_types: Vec<Type> = Vec::new();
        let mut p: usize = 0;
        while p < function.runtime_args.len()
            invariant
                old(self).progresses(*self),
                self.frames@.len() == outer.len() + 1,
                self.frames@.drop_last() == outer,
                outer == old(self).frames@,
                self.fuel < old(self).fuel,
                parameter_types@.len() == p,
                p <= function.runtime_args@.len(),
            decreases function.runtime_args@.len() - p,
        {
            let t = self.resolve_runtime_type(&function.runtime_args[p].type_annotation, "runtime parameters cannot store unsized values");
            parameter_types.push(t);
            p += 1;
        }
        let hir_parameters = self.declare_parameters(&function.runtime_args, &parameter_types, &mut names);
        let body = self.analyze_block(&function.body, &return_type);
        let mut referenced: Vec<SymbolId> = Vec::new();
        collect_block_symbols(&body, &mut referenced);
        let mut kept: Vec<(SymbolId, ComptimeValue)> = Vec::new();
        let ghost mut origin: Seq<int> = Seq::empty();
        let mut c: usize = 0;
        while c < captures.len()
            invariant
                captures@.len() <= values@.len(),
                origin.len() == kept@.len(),
                forall|j: int| 0 <= j < kept@.len() ==> 0 <= #[trigger] origin[j] < values@.len(),
                forall|j: int| 0 <= j < kept@.len() ==> captured_as(#[trigger] kept@[j], values@, origin[j]),
            decreases captures@.len() - c,
        {
            if contains_symbol(&referenced, captures[c].0) {
                let copy = values[c].duplicate();
                kept.push((captures[c].0, copy));
                proof {
                    origin = origin.push(c as int);
                    assert(captured_as(kept@[kept@.len() - 1], values@, c as int));
                }
            }
            c += 1;
        }
        self.frames.pop();
        assert(self.frames@ =~= old(self).frames@);
        let mut parameter_error = false;
        let mut q: usize = 0;
        while q < hir_parameters.len()
            invariant
                hir_parameters@.len() == 0 ==> !parameter_error,
                q <= hir_parameters@.len(),
                !parameter_error ==> forall|r: int| 0 <= r < q ==> !((#[trigger] hir_parameters@[r]).type_ is Error),
                origin.len() == kept@.len(),
                forall|j: int| 0 <= j < kept@.len() ==> 0 <= #[trigger] origin[j] < values@.len(),
                forall|j: int| 0 <= j < kept@.len() ==> captured_as(#[trigger] kept@[j], values@, origin[j]),
            decreases hir_parameters@.len() - q,
        {
            if matches!(hir_parameters[q].type_, Type::Error) {
                parameter_error = true;
            }
            q += 1;
        }
        if matches!(return_type, Type::Error) || parameter_error {
            return None;
        }
        if self.functions.len() >= 0xffff_ffff {
            self.report(error_str("Too many functions", function.body.span, "the compiler cannot name more functions"));
            return None;
        }
        let hir_function = HirFunctionExpression { parameters: hir_parameters, return_type, body };
        proof {
            let count = self.function_count();
            assert(self.function_within(hir_function));
            self.lemma_stored_within_grows(
                self.symbols.symbols@.len(), count, self.template_count(),
                self.symbols.symbols@.len(), count + 1, self.template_count(),
            );
            lemma_function_refs_grow(hir_function,
                self.symbols.symbols@.len(), count, self.template_count(),
                self.symbols.symbols@.len(), count + 1, self.template_count());
        }
        let ghost kept_view = kept@;
        let specialized = ComptimeFunction { hir: Rc::new(hir_function), captures: kept };
        assert(binds_given_values(specialized, values@)) by {
            assert forall|j: int| 0 <= j < specialized.captures@.len() implies captured_from(#[trigger] specialized.captures@[j], values@) by {
                assert(kept_view[j] == specialized.captures@[j]);
                assert(captured_as(specialized.captures@[j], values@, origin[j]));
            }
        }
        let ghost stored = specialized;
        let id = self.functions.insert(specialized);
        assert(self.functions.view_functions()[id.0 as int] == stored);
        Some(id)
    }

    /// The specialization key of `value`; a value without one is reported.
    fn comptime_key(&mut self, value: &ComptimeValue, span: Span) -> (key: Option<ComptimeKey>)
        requires
            old(self).inv(),
        ensures
            old(self).evolves(*final(self)),
            final(self).fuel == old(self).fuel,
            key is Some == key_of(*value) is Some,
    {
        match value {
            ComptimeValue::Type(t) => Some(ComptimeKey::Type(t.duplicate())),
            ComptimeValue::String(s) => Some(ComptimeKey::Str(s.clone())),
            ComptimeValue::Integer { value, type_ } => Some(ComptimeKey::Integer { value: *value, type_: *type_ }),
            ComptimeValue::Bool(b) => Some(ComptimeKey::Bool(*b)),
            unsupported => {
                let text = join(join(String::from_str("`"), value_debug_text(unsupported).as_str()), "` cannot currently be used as a specialization key");
                self.report(Diagnostic::error(String::from_str("Unsupported compile-time argument"), span, text));
                None
            },
        }
    }

    /// Whether `type_` can exist at runtime; `type` and `str` cannot, and are
    /// reported with `description`.
    pub(crate) fn validate_runtime_type(&mut self, type_: &Type, span: Span, description: &str) -> (valid: bool)
        requires
            old(self).inv(),
        ensures
            old(self).evolves(*final(self)),
            final(self).fuel == old(self).fuel,
            valid == !unsized_at_runtime(*type_),
            valid ==> final(self).diagnostics@ == old(self).diagnostics@,
            !valid ==> final(self).diagnostics@.len() == old(self).diagnostics@.len() + 1,
            !valid ==> final(self).diagnostics@.last()@.primary.span == span
                && final(self).diagnostics@.last()@.message == (if *type_ is Type {
                    "`type` has no runtime representation"@
                } else {
                    "`str` has no runtime representation"@
                })
                && final(self).diagnostics@.last()@.primary.text == description@,
    {
        proof {
            reveal_strlit("`type` has no runtime representation");
            reveal_strlit("`str` has no runtime representation");
        }
        if matches!(type_, Type::Type) {
            self.report(Diagnostic::error(String::from_str("`type` has no runtime representation"), span, String::from_str(description)));
            return false;
        }
        if matches!(type_, Type::Str) {
            self.report(Diagnostic::error(String::from_str("`str` has no runtime representation"), span, String::from_str(description)));
            false
        } else {
            true
        }
    }

    /// Elaborates `@extern<abi, link_name, type>`: the ABI and link name are
    /// compile-time strings and the type a function type.
    fn analyze_extern_intrinsic(&mut self, arguments: &Vec<Expression>, span: Span) -> (result: HirExpression)
        requires
            old(self).inv(),
        ensures
            final(self).refers_within(result),
            old(self).evolves(*final(self)),
            result.span == span,
            result.data is Error ==> result.type_ is Error,
            result.type_ is Function || result.type_ is Error,
            result.data is Error || result.data is Symbol,
            result.data matches HirExpressionData::Symbol(id) ==> {
                &&& id.0 < final(self).symbols.symbols@.len()
                &&& final(self).symbols.symbols@[id.0 as int].kind matches SymbolKind::ExternFunction { abi: ExternAbi::C, .. }
                &&& type_eq(final(self).symbols.symbols@[id.0 as int].type_, result.type_)
            },
            old(self).fuel > 0 && arguments@.len() != 3 ==> {
                &&& result.data is Error
                &&& final(self).diagnostics@.len() == old(self).diagnostics@.len() + 1
                &&& final(self).diagnostics@.last()@.message == "Incorrect number of arguments to `@extern`"@
                &&& final(self).diagnostics@.last()@.primary.span == span
            },
        decreases old(self).fuel, 0nat,
    {
        proof {
            reveal_strlit("Incorrect number of arguments to `@extern`");
        }
        if !self.tick(span) {
            return HirExpression::error(span);
        }
        if arguments.len() != 3 {
            let text = join(String::from_str("expected 3, but found "), decimal_text(arguments.len() as i128).as_str());
            self.report(Diagnostic::error(String::from_str("Incorrect number of arguments to `@extern`"), span, text));
            return HirExpression::error(span);
        }
        let str_type = Type::Str;
        let type_type = Type::Type;
        let abi_value = match self.extern_argument(&arguments[0], &str_type) {
            Some(v) => v,
            None => {
                return HirExpression::error(span);
            },
        };
        let link_value = match self.extern_argument(&arguments[1], &str_type) {
            Some(v) => v,
            None => {
                return HirExpression::error(span);
            },
        };
        let type_value = match self.extern_argument(&arguments[2], &type_type) {
            Some(v) => v,
            None => {
                return HirExpression::error(span);
            },
        };
        let (abi_text, link_name, function_type) = match (abi_value, link_value, type_value) {
            (ComptimeValue::String(abi), ComptimeValue::String(link_name), ComptimeValue::Type(function_type)) => (abi, link_name, function_type),
            _ => {
                self.report(error_str("Internal compiler error", span, "validated @extern arguments produced unexpected values"));
                return HirExpression::error(span);
            },
        };
        let c_abi = String::from_str("C");
        if abi_text != c_abi {
            let text = join(join(String::from_str("ABI `"), abi_text.as_str()), "` is not supported; expected `C`");
            self.report(Diagnostic::error(String::from_str("Unsupported external ABI"), arguments[0].span, text));
            return HirExpression::error(span);
        }
        if !matches!(function_type, Type::Function { .. }) {
            let text = join(join(String::from_str("expected a function type, found `"), type_debug_text(&function_type).as_str()), "`");
            self.report(Diagnostic::error(String::from_str("Invalid external function type"), arguments[2].span, text));
            return HirExpression::error(span);
        }
        let external_symbol = match self.declare_external_function(ExternAbi::C, &link_name, &function_type, span) {
            Some(symbol) => symbol,
            None => {
                return HirExpression::error(span);
            },
        };
        HirExpression { type_: function_type, span, data: HirExpressionData::Symbol(external_symbol) }
    }

    /// Elaborates and evaluates one argument of `@extern`.
    fn extern_argument(&mut self, argument: &Expression, expected_type: &Type) -> (value: Option<ComptimeValue>)
        requires
            old(self).inv(),
        ensures
            old(self).evolves(*final(self)),
            value matches Some(v) ==> !(v is Error),
            argument.data is StringLiteral && *expected_type is Str && old(self).fuel > 1 ==> value matches Some(ComptimeValue::String(_)),
        decreases old(self).fuel, 1nat,
    {
        let hir_argument = self.analyze_expression(argument, Some(expected_type));
        if matches!(hir_argument.type_, Type::Error) {
            return None;
        }
        let value = self.evaluate_expression(&hir_argument);
        if value.is_error() {
            return None;
        }
        Some(value)
    }

    /// The symbol of the external function linked as `link_name`: declared
    /// once; a later declaration must give it the same type.
    fn declare_external_function(&mut self, abi: ExternAbi, link_name: &String, function_type: &Type, declaration_span: Span) -> (result: Option<SymbolId>)
        requires
            old(self).inv(),
        ensures
            old(self).evolves(*final(self)),
            final(self).fuel == old(self).fuel,
            result matches Some(id) ==> {
                &&& id.0 < final(self).symbols.symbols@.len()
                &&& extern_named(final(self).symbols.symbols@[id.0 as int].kind, abi, link_name@)
                &&& type_eq(final(self).symbols.symbols@[id.0 as int].type_, *function_type)
            },
            result matches Some(id) && id.0 >= old(self).symbols.symbols@.len() ==>
                forall|j: int| 0 <= j < old(self).symbols.symbols@.len() ==>
                    !extern_named(#[trigger] old(self).symbols.symbols@[j].kind, abi, link_name@),
            result is None ==> final(self).diagnostics@.len() == old(self).diagnostics@.len() + 1,
            match first_extern(old(self).symbols.symbols@, abi, link_name@) {
                Some(j) => if type_eq(old(self).symbols.symbols@[j].type_, *function_type) {
                    result == Some(SymbolId(j as u32)) && *final(self) == *old(self)
                } else {
                    &&& result is None
                    &&& final(self).diagnostics@.last()@.message == "Conflicting external function declarations"@
                    &&& final(self).diagnostics@.last()@.primary.span == declaration_span
                },
                None => old(self).symbols.symbols@.len() < u32::MAX ==> result == Some(SymbolId(old(self).symbols.symbols@.len() as u32)),
            },
    {
        proof {
            reveal_strlit("Conflicting external function declarations");
        }
        let mut i: usize = 0;
        while i < self.symbols.symbols.len()
            invariant
                i <= self.symbols.symbols@.len(),
                *self == *old(self),
                old(self).inv(),
                forall|j: int| 0 <= j < i ==> !extern_named(#[trigger] old(self).symbols.symbols@[j].kind, abi, link_name@),
            decreases self.symbols.symbols@.len() - i,
        {
            let matches_link = match &self.symbols.symbols[i].kind {
                SymbolKind::ExternFunction { abi: existing_abi, link_name: existing_link_name } =>
                    *existing_abi == abi && *existing_link_name == *link_name,
                _ => false,
            };
            if matches_link {
                proof {
                    let f = first_extern(old(self).symbols.symbols@, abi, link_name@);
                    assert(extern_named(old(self).symbols.symbols@[i as int].kind, abi, link_name@));
                    assert(f == Some(i as int)) by {
                        let c = f->0;
                        if c < i as int {
                            assert(extern_named(old(self).symbols.symbols@[c].kind, abi, link_name@));
                        } else if c > i as int {
                            assert(!extern_named(old(self).symbols.symbols@[i as int].kind, abi, link_name@));
                        }
                    }
                }
                let existing_type = self.symbols.symbols[i].type_.duplicate();
                let existing_span = self.symbols.symbols[i].declaration_span;
                if existing_type.same_as(function_type) {
                    proof {
                        lemma_type_eq_symmetric(existing_type, self.symbols.symbols@[i as int].type_);
                        lemma_type_eq_transitive(self.symbols.symbols@[i as int].type_, existing_type, *function_type);
                    }
                    return Some(SymbolId(i as u32));
                }
                proof {
                    if type_eq(self.symbols.symbols@[i as int].type_, *function_type) {
                        lemma_type_eq_transitive(existing_type, self.symbols.symbols@[i as int].type_, *function_type);
                    }
                }
                let message = join(join(join(join(join(join(String::from_str("external symbol `"), link_name.as_str()), "` was previously declared as `"), type_debug_text(&existing_type).as_str()), "`, but this declaration uses `"), type_debug_text(function_type).as_str()), "`");
                match existing_span {
                    Some(existing_span) => {
                        let mut extra: Vec<Label> = Vec::new();
                        extra.push(Label::new(existing_span, String::from_str("previous declaration is here")));
                        self.report(Diagnostic::error_with_extra_labels(
                            String::from_str("Conflicting external function declarations"),
                            declaration_span,
                            message,
                            extra,
                        ));
                    },
                    None => {
                        self.report(Diagnostic::error(String::from_str("Conflicting external function declarations"), declaration_span, message));
                    },
                }
                return None;
            }
            i += 1;
        }
        self.add_symbol(
            Symbol {
                name: link_name.clone(),
                declaration_span: Some(declaration_span),
                kind: SymbolKind::ExternFunction { abi, link_name: link_name.clone() },
                type_: function_type.duplicate(),
            },
            declaration_span,
        )
    }
}

/// Copies of the keys, in order.
fn duplicate_keys(keys: &Vec<ComptimeKey>) -> (copies: Vec<ComptimeKey>)
    ensures
        copies@.len() == keys@.len(),
{
    let mut copies: Vec<ComptimeKey> = Vec::new();
    let mut i: usize = 0;
    while i < keys.len()
        invariant
            i <= keys@.len(),
            copies@.len() == i,
        decreases keys@.len() - i,
    {
        let copy = match &keys[i] {
            ComptimeKey::Integer { value, type_ } => ComptimeKey::Integer { value: *value, type_: *type_ },
            ComptimeKey::Str(s) => ComptimeKey::Str(s.clone()),
            ComptimeKey::Type(t) => ComptimeKey::Type(t.duplicate()),
            ComptimeKey::Bool(b) => ComptimeKey::Bool(*b),
        };
        copies.push(copy);
        i += 1;
    }
    copies
}

/// Copies of the entries of a frame, in order.
pub(crate) fn duplicate_frame(frame: &Vec<(SymbolId, ComptimeValue)>) -> (copy: Vec<(SymbolId, ComptimeValue)>)
    ensures
        copy@.len() == frame@.len(),
        forall|i: int| 0 <= i < frame@.len() ==> (#[trigger] copy@[i]).0 == frame@[i].0,
        forall|i: int| 0 <= i < frame@.len() && (frame@[i].1 is Integer || frame@[i].1 is Bool) ==> #[trigger] copy@[i] == frame@[i],
{
    let mut copy: Vec<(SymbolId, ComptimeValue)> = Vec::new();
    let mut i: usize = 0;
    while i < frame.len()
        invariant
            i <= frame@.len(),
            copy@.len() == i,
            forall|k: int| 0 <= k < i ==> (#[trigger] copy@[k]).0 == frame@[k].0,
            forall|k: int| 0 <= k < i && (frame@[k].1 is Integer || frame@[k].1 is Bool) ==> #[trigger] copy@[k] == frame@[k],
        decreases frame@.len() - i,
    {
        copy.push((frame[i].0, frame[i].1.duplicate()));
        i += 1;
    }
    copy
}

/// Whether `symbols` holds `symbol`.
fn contains_symbol(symbols: &Vec<SymbolId>, symbol: SymbolId) -> (found: bool)
    ensures
        found == symbols@.contains(symbol),
{
    let mut i: usize = 0;
    while i < symbols.len()
        invariant
            i <= symbols@.len(),
            forall|k: int| 0 <= k < i ==> symbols@[k] != symbol,
        decreases symbols@.len() - i,
    {
        if symbols[i] == symbol {
            return true;
        }
        i += 1;
    }
    false
}

/// Whether the expression refers to `symbol`, inside nested function bodies too.
pub open spec fn expression_mentions(e: HirExpression, symbol: SymbolId) -> bool
    decreases e, 0nat,
{
    match e.data {
        HirExpressionData::Symbol(s) => s == symbol,
        HirExpressionData::Unary { operand, .. } => expression_mentions(*operand, symbol),
        HirExpressionData::Binary { lhs, rhs, .. } => expression_mentions(*lhs, symbol) || expression_mentions(*rhs, symbol),
        HirExpressionData::Call { callee, arguments } => expression_mentions(*callee, symbol)
            || exists|i: int| 0 <= i < arguments@.len() && expression_mentions(#[trigger] arguments@[i], symbol),
        HirExpressionData::ArrayRepeatInitialization { value, .. } => expression_mentions(*value, symbol),
        HirExpressionData::Index { base, index } => expression_mentions(*base, symbol) || expression_mentions(*index, symbol),
        HirExpressionData::Function(function) => block_mentions(function.body, symbol),
        _ => false,
    }
}

/// Whether a statement of the block refers to `symbol`.
pub open spec fn block_mentions(b: HirBlock, symbol: SymbolId) -> bool
    decreases b, 0nat,
{
    exists|i: int| 0 <= i < b.statements@.len() && statement_mentions(#[trigger] b.statements@[i], symbol)
}

/// Whether the statement refers to `symbol` (a binding's own symbol aside).
pub open spec fn statement_mentions(st: HirStatement, symbol: SymbolId) -> bool
    decreases st, 0nat,
{
    match st.data {
        HirStatementData::Return(Some(e)) => expression_mentions(e, symbol),
        HirStatementData::Expression(e) => expression_mentions(e, symbol),
        HirStatementData::Binding { expression, .. } => expression_mentions(expression, symbol),
        HirStatementData::Assignment { target, expression } => place_mentions(target, symbol) || expression_mentions(expression, symbol),
        HirStatementData::If { condition, then_block, else_branch } => {
            ||| expression_mentions(condition, symbol)
            ||| block_mentions(then_block, symbol)
            ||| match else_branch {
                Some(HirElseBranch::ElseIf(nested)) => statement_mentions(*nested, symbol),
                Some(HirElseBranch::Else(block)) => block_mentions(block, symbol),
                None => false,
            }
        },
        HirStatementData::While { condition, while_block } => expression_mentions(condition, symbol) || block_mentions(while_block, symbol),
        _ => false,
    }
}

/// Whether the assignment target refers to `symbol`.
pub open spec fn place_mentions(p: HirPlace, symbol: SymbolId) -> bool
    decreases p, 0nat,
{
    match p.data {
        HirPlaceData::Symbol(s) => s == symbol,
        HirPlaceData::Index { array, index, .. } => array == symbol || expression_mentions(index, symbol),
    }
}

/// Whether one of the first `n` arguments refers to `symbol`.
pub open spec fn arguments_mention(arguments: Seq<HirExpression>, n: int, symbol: SymbolId) -> bool {
    exists|j: int| 0 <= j < n && expression_mentions(#[trigger] arguments[j], symbol)
}

/// One more argument refers to what it refers to.
proof fn lemma_arguments_mention_next(arguments: Seq<HirExpression>, n: int, symbol: SymbolId)
    requires
        0 <= n < arguments.len(),
    ensures
        arguments_mention(arguments, n + 1, symbol) == (arguments_mention(arguments, n, symbol) || expression_mentions(arguments[n], symbol)),
{
    if arguments_mention(arguments, n + 1, symbol) {
        let j = choose|j: int| 0 <= j < n + 1 && expression_mentions(#[trigger] arguments[j], symbol);
        if j < n {
            assert(arguments_mention(arguments, n, symbol));
        }
    }
    if arguments_mention(arguments, n, symbol) {
        let j = choose|j: int| 0 <= j < n && expression_mentions(#[trigger] arguments[j], symbol);
        assert(0 <= j < n + 1 && expression_mentions(arguments[j], symbol));
    }
    if expression_mentions(arguments[n], symbol) {
        assert(0 <= n < n + 1 && expression_mentions(arguments[n], symbol));
    }
}

/// Adds `symbol` to `symbols` unless it is there already.
fn insert_symbol(symbols: &mut Vec<SymbolId>, symbol: SymbolId)
    ensures
        forall|s: SymbolId| #[trigger] final(symbols)@.contains(s) <==> old(symbols)@.contains(s) || s == symbol,
{
    if !contains_symbol(symbols, symbol) {
        symbols.push(symbol);
        proof {
            assert(final(symbols)@[old(symbols)@.len() as int] == symbol);
            assert forall|s: SymbolId| final(symbols)@.contains(s) <==> old(symbols)@.contains(s) || s == symbol by {
                if old(symbols)@.contains(s) {
                    let k = choose|k: int| 0 <= k < old(symbols)@.len() && old(symbols)@[k] == s;
                    assert(final(symbols)@[k] == s);
                }
                if final(symbols)@.contains(s) && s != symbol {
                    let k = choose|k: int| 0 <= k < final(symbols)@.len() && final(symbols)@[k] == s;
                    assert(old(symbols)@[k] == s);
                }
            }
        }
    }
}

/// Collects the symbols that a block refers to.
fn collect_block_symbols(block: &HirBlock, symbols: &mut Vec<SymbolId>)
    ensures
        forall|s: SymbolId| #[trigger] final(symbols)@.contains(s) <==> old(symbols)@.contains(s) || block_mentions(*block, s),
    decreases block, 0nat,
{
    let mut i: usize = 0;
    while i < block.statements.len()
        invariant
            i <= block.statements@.len(),
            forall|s: SymbolId| symbols@.contains(s) <==> old(symbols)@.contains(s)
                || exists|j: int| 0 <= j < i && statement_mentions(#[trigger] block.statements@[j], s),
        decreases block.statements@.len() - i,
    {
        let ghost before = symbols@;
        collect_statement_symbols(&block.statements[i], symbols);
        proof {
            assert forall|s: SymbolId| symbols@.contains(s) <==> old(symbols)@.contains(s)
                || exists|j: int| 0 <= j < i + 1 && statement_mentions(#[trigger] block.statements@[j], s) by {
                if statement_mentions(block.statements@[i as int], s) {
                    assert(0 <= i < i + 1);
                }
                if exists|j: int| 0 <= j < i + 1 && statement_mentions(#[trigger] block.statements@[j], s) {
                    let j = choose|j: int| 0 <= j < i + 1 && statement_mentions(#[trigger] block.statements@[j], s);
                    if j < i {
                        assert(before.contains(s));
                    }
                }
            }
        }
        i += 1;
    }
}

/// Collects the symbols that a statement refers to.
fn collect_statement_symbols(statement: &HirStatement, symbols: &mut Vec<SymbolId>)
    ensures
        forall|s: SymbolId| #[trigger] final(symbols)@.contains(s) <==> old(symbols)@.contains(s) || statement_mentions(*statement, s),
    decreases statement, 0nat,
{
    match &statement.data {
        HirStatementData::Return(Some(expression)) => collect_expression_symbols(expression, symbols),
        HirStatementData::Expression(expression) => collect_expression_symbols(expression, symbols),
        HirStatementData::Return(None) | HirStatementData::Error => {},
        HirStatementData::Binding { expression, .. } => collect_expression_symbols(expression, symbols),
        HirStatementData::Assignment { target, expression } => {
            collect_place_symbols(target, symbols);
            let ghost middle = symbols@;
            collect_expression_symbols(expression, symbols);
            proof {
                assert forall|s: SymbolId| #[trigger] symbols@.contains(s) <==> old(symbols)@.contains(s) || statement_mentions(*statement, s) by {
                    assert(middle.contains(s) <==> old(symbols)@.contains(s) || place_mentions(*target, s));
                }
            }
        },
        HirStatementData::If { condition, then_block, else_branch } => {
            collect_expression_symbols(condition, symbols);
            let ghost first = symbols@;
            collect_block_symbols(then_block, symbols);
            let ghost second = symbols@;
            match else_branch {
                Some(HirElseBranch::ElseIf(nested)) => collect_statement_symbols(nested, symbols),
                Some(HirElseBranch::Else(block)) => collect_block_symbols(block, symbols),
                None => {},
            }
            proof {
                assert forall|s: SymbolId| #[trigger] symbols@.contains(s) <==> old(symbols)@.contains(s) || statement_mentions(*statement, s) by {
                    assert(first.contains(s) <==> old(symbols)@.contains(s) || expression_mentions(*condition, s));
                    assert(second.contains(s) <==> first.contains(s) || block_mentions(*then_block, s));
                }
            }
        },
        HirStatementData::While { condition, while_block } => {
            collect_expression_symbols(condition, symbols);
            let ghost middle = symbols@;
            collect_block_symbols(while_block, symbols);
            proof {
                assert forall|s: SymbolId| #[trigger] symbols@.contains(s) <==> old(symbols)@.contains(s) || statement_mentions(*statement, s) by {
                    assert(middle.contains(s) <==> old(symbols)@.contains(s) || expression_mentions(*condition, s));
                }
            }
        },
    }
}

/// Collects the symbols that an assignment target refers to.
fn collect_place_symbols(place: &HirPlace, symbols: &mut Vec<SymbolId>)
    ensures
        forall|s: SymbolId| #[trigger] final(symbols)@.contains(s) <==> old(symbols)@.contains(s) || place_mentions(*place, s),
    decreases place, 0nat,
{
    match &place.data {
        HirPlaceData::Symbol(symbol) => insert_symbol(symbols, *symbol),
        HirPlaceData::Index { array, index, .. } => {
            insert_symbol(symbols, *array);
            let ghost middle = symbols@;
            collect_expression_symbols(index, symbols);
            proof {
                assert forall|s: SymbolId| #[trigger] symbols@.contains(s) <==> old(symbols)@.contains(s) || place_mentions(*place, s) by {
                    assert(middle.contains(s) <==> old(symbols)@.contains(s) || s == *array);
                }
            }
        },
    }
}

/// Collects the symbols that an expression refers to, inside nested
/// function bodies too.
fn collect_expression_symbols(expression: &HirExpression, symbols: &mut Vec<SymbolId>)
    ensures
        forall|s: SymbolId| #[trigger] final(symbols)@.contains(s) <==> old(symbols)@.contains(s) || expression_mentions(*expression, s),
    decreases expression, 0nat,
{
    match &expression.data {
        HirExpressionData::Symbol(symbol) => insert_symbol(symbols, *symbol),
        HirExpressionData::Unary { operand, .. } => collect_expression_symbols(operand, symbols),
        HirExpressionData::Binary { lhs, rhs, .. } => {
            collect_expression_symbols(lhs, symbols);
            let ghost middle = symbols@;
            collect_expression_symbols(rhs, symbols);
            proof {
                assert forall|s: SymbolId| #[trigger] symbols@.contains(s) <==> old(symbols)@.contains(s) || expression_mentions(*expression, s) by {
                    assert(middle.contains(s) <==> old(symbols)@.contains(s) || expression_mentions(**lhs, s));
                }
            }
        },
        HirExpressionData::Call { callee, arguments } => {
            collect_expression_symbols(callee, symbols);
            let ghost after_callee = symbols@;
            let mut i: usize = 0;
            while i < arguments.len()
                invariant
                    i <= arguments@.len(),
                    expression.data == (HirExpressionData::Call { callee: *callee, arguments: *arguments }),
                    forall|s: SymbolId| #[trigger] symbols@.contains(s) <==> after_callee.contains(s) || arguments_mention(arguments@, i as int, s),
                decreases arguments@.len() - i,
            {
                proof {
                    assert(decreases_to!(*expression => expression.data));
                    assert(decreases_to!(expression.data => expression.data->Call_arguments));
                    assert(expression.data->Call_arguments == *arguments);
                    assert(decreases_to!(*arguments => arguments@));
                    assert(decreases_to!(arguments@ => arguments@[i as int]));
                }
                let ghost before = symbols@;
                collect_expression_symbols(&arguments[i], symbols);
                proof {
                    assert forall|s: SymbolId| #[trigger] symbols@.contains(s) <==> after_callee.contains(s) || arguments_mention(arguments@, i + 1, s) by {
                        lemma_arguments_mention_next(arguments@, i as int, s);
                        assert(before.contains(s) <==> after_callee.contains(s) || arguments_mention(arguments@, i as int, s));
                    }
                }
                i += 1;
            }
            proof {
                assert forall|s: SymbolId| #[trigger] symbols@.contains(s) <==> old(symbols)@.contains(s) || expression_mentions(*expression, s) by {
                    assert(after_callee.contains(s) <==> old(symbols)@.contains(s) || expression_mentions(**callee, s));
                }
            }
        },
        HirExpressionData::ArrayRepeatInitialization { value, .. } => collect_expression_symbols(value, symbols),
        HirExpressionData::Index { base, index } => {
            collect_expression_symbols(base, symbols);
            let ghost middle = symbols@;
            collect_expression_symbols(index, symbols);
            proof {
                assert forall|s: SymbolId| #[trigger] symbols@.contains(s) <==> old(symbols)@.contains(s) || expression_mentions(*expression, s) by {
                    assert(middle.contains(s) <==> old(symbols)@.contains(s) || expression_mentions(**base, s));
                }
            }
        },
        HirExpressionData::Function(function) => collect_block_symbols(&function.body, symbols),
        _ => {},
    }
}

} // verus!
