//! Evaluation of elaborated code at compile time.

use vstd::prelude::*;
use super::Elaborator;
use crate::ast::{BinaryOperator, Phase, UnaryOperator};
use crate::comptime::{ComptimeFunction, ComptimeValue, FunctionId, value_eq};
use crate::diagnostics::{Diagnostic, error_str};
use crate::hir::{
    HirBlock, HirElseBranch, HirExpression, HirExpressionData, HirFunctionExpression, HirParameter, HirPlaceData,
    HirStatement, HirStatementData,
};
use crate::symbols::{SymbolId, SymbolKind};
use crate::text::{decimal_text, join, operator_text, value_debug_text};
use crate::types::{IntegerType, TargetInfo, Type, spec_is_signed, spec_maximum, spec_minimum, supported_width, type_eq};
use crate::hir::lemma_expression_refs_grow;
use crate::util::share;
use super::analysis::duplicate_frame;

verus! {

broadcast use vstd::std_specs::hash::group_hash_axioms;

/// How evaluating a statement ended: on to the next statement, a return
/// with a value, or an error that was reported.
#[derive(Debug)]
pub enum EvaluationFlow {
    Continue,
    Return(ComptimeValue),
    Error,
}

/// The value of two compile-time values joined by `operator`: integers of
/// one type are computed exactly, within the type, and a division by zero or
/// a result outside the type is an error; booleans can be compared for
/// (in)equality; anything else is an error.
pub open spec fn binary_value(operator: BinaryOperator, l: ComptimeValue, r: ComptimeValue, target: TargetInfo) -> ComptimeValue {
    match (l, r) {
        (ComptimeValue::Integer { value: a, type_: t }, ComptimeValue::Integer { value: b, type_: u }) => if t != u {
            ComptimeValue::Error
        } else if is_arithmetic(operator) {
            match integer_outcome(operator, a, b, t, target) {
                IntegerOutcome::Value(v) => ComptimeValue::Integer { value: v, type_: t },
                _ => ComptimeValue::Error,
            }
        } else {
            ComptimeValue::Bool(comparison_result(operator, a as int, b as int))
        },
        (ComptimeValue::Bool(a), ComptimeValue::Bool(b)) => match operator {
            BinaryOperator::Equal => ComptimeValue::Bool(a == b),
            BinaryOperator::NotEqual => ComptimeValue::Bool(a != b),
            _ => ComptimeValue::Error,
        },
        _ => ComptimeValue::Error,
    }
}

/// The compile-time value of `-v`: the negated integer when `v` is an
/// integer of a signed type whose negation fits that type; an error otherwise.
pub open spec fn negation_value(v: ComptimeValue, target: TargetInfo) -> ComptimeValue {
    match v {
        ComptimeValue::Integer { value, type_ } => if spec_is_signed(type_)
            && spec_minimum(type_, target) <= -value <= spec_maximum(type_, target) {
            ComptimeValue::Integer { value: (-value) as i128, type_ }
        } else {
            ComptimeValue::Error
        },
        _ => ComptimeValue::Error,
    }
}

/// Law: negating a signed integer whose negation fits gives its additive
/// inverse, of the same type: the two add up to zero.
pub proof fn law_negation_is_additive_inverse(a: i128, t: IntegerType, target: TargetInfo)
    requires
        spec_is_signed(t),
        spec_minimum(t, target) <= -a <= spec_maximum(t, target),
    ensures
        negation_value(ComptimeValue::Integer { value: a, type_: t }, target) matches ComptimeValue::Integer { value: r, type_: u }
            && r + a == 0 && u == t,
{
}

/// Law: the compile-time value of a negation `-e`, when `e`'s value is a
/// signed integer known beforehand whose negation fits, is the additive
/// inverse of `e`'s value.
pub proof fn law_known_negation(e: HirExpression, frames: Seq<Vec<(SymbolId, ComptimeValue)>>, values: Map<u32, ComptimeValue>,
    target: TargetInfo, a: i128, t: IntegerType)
    requires
        constant_value(e, frames, values, target) == Some(ComptimeValue::Integer { value: a, type_: t }),
        spec_is_signed(t),
        spec_minimum(t, target) <= -a <= spec_maximum(t, target),
    ensures
        constant_value(HirExpression { type_: e.type_, span: e.span,
            data: HirExpressionData::Unary { operator: UnaryOperator::Negate, operand: Box::new(e) } }, frames, values, target)
            matches Some(ComptimeValue::Integer { value: r, type_: u }) && r + a == 0 && u == t,
{
    law_negation_is_additive_inverse(a, t, target);
}

/// The value at compile time of an expression that needs no call to be
/// evaluated: integer and boolean literals, names whose integer or boolean
/// value is already known in `frames` or `values`, and binary operators over
/// them; `None` for an expression of another kind.
pub open spec fn constant_value(e: HirExpression, frames: Seq<Vec<(SymbolId, ComptimeValue)>>, values: Map<u32, ComptimeValue>,
    target: TargetInfo) -> Option<ComptimeValue>
    decreases e,
{
    match e.data {
        HirExpressionData::Integer(v) => match e.type_ {
            Type::Integer(t) => Some(ComptimeValue::Integer { value: v, type_: t }),
            _ => Some(ComptimeValue::Error),
        },
        HirExpressionData::Bool(b) => Some(ComptimeValue::Bool(b)),
        HirExpressionData::Symbol(symbol) => match visible_value(frames, values, symbol) {
            Some(v) => if v is Integer || v is Bool { Some(v) } else { None },
            None => None,
        },
        HirExpressionData::Unary { operand, .. } => match constant_value(*operand, frames, values, target) {
            Some(v) => Some(negation_value(v, target)),
            None => None,
        },
        HirExpressionData::Binary { lhs, operator, rhs } => match (constant_value(*lhs, frames, values, target),
            constant_value(*rhs, frames, values, target)) {
            (Some(l), Some(r)) => Some(binary_value(operator, l, r, target)),
            _ => None,
        },
        _ => None,
    }
}

/// The message with which an arithmetic operator on two constant integers
/// of one type fails, if it does: a division by zero, or a result that does
/// not fit in the type.
pub open spec fn arithmetic_failure(operator: BinaryOperator, l: Option<ComptimeValue>, r: Option<ComptimeValue>, target: TargetInfo) -> Option<Seq<char>> {
    match (l, r) {
        (Some(ComptimeValue::Integer { value: a, type_: t }), Some(ComptimeValue::Integer { value: b, type_: u })) =>
            if t == u && is_arithmetic(operator) {
                match integer_outcome(operator, a, b, t, target) {
                    IntegerOutcome::DivisionByZero => Some("Division by zero"@),
                    IntegerOutcome::Value(_) => None,
                    _ => Some("Integer overflow"@),
                }
            } else {
                None
            },
        _ => None,
    }
}

/// How running a block ends when that is plain from its first statement: an
/// empty block goes on, and one that starts with `return;` returns unit.
pub open spec fn plain_block_flow(block: HirBlock) -> Option<EvaluationFlow> {
    if block.statements@.len() == 0 {
        Some(EvaluationFlow::Continue)
    } else if block.statements@[0].data == HirStatementData::Return(None) {
        Some(EvaluationFlow::Return(ComptimeValue::Unit))
    } else {
        None
    }
}

/// The branch that a conditional takes when its condition is `b`: the
/// `then` block, else the `else` block; `None` for no block (no `else`, or
/// an `else if`).
pub open spec fn chosen_block(b: bool, then_block: HirBlock, else_branch: Option<HirElseBranch>) -> Option<HirBlock> {
    if b {
        Some(then_block)
    } else {
        match else_branch {
            Some(HirElseBranch::Else(block)) => Some(block),
            _ => None,
        }
    }
}

/// The evaluation steps that a constant expression takes: one per node.
pub open spec fn node_count(e: HirExpression) -> nat
    decreases e,
{
    match e.data {
        HirExpressionData::Binary { lhs, rhs, .. } => 1 + node_count(*lhs) + node_count(*rhs),
        HirExpressionData::Unary { operand, .. } => 1 + node_count(*operand),
        _ => 1,
    }
}

/// Evaluating an expression whose value is known beforehand, with enough
/// fuel, gives that value, uses one step per node, keeps the stored values,
/// and reports nothing when the value is not an error.
pub open spec fn constant_evaluation(before: Elaborator, after: Elaborator, e: HirExpression, value: ComptimeValue) -> bool {
    match constant_value(e, before.frames@, before.values.view_values(), before.target) {
        Some(v) => before.fuel >= node_count(e) ==> {
            &&& value == v
            &&& after.fuel == before.fuel - node_count(e)
            &&& after.values == before.values
            &&& after.functions == before.functions
            &&& !(v is Error) ==> after.diagnostics@.len() == before.diagnostics@.len()
        },
        None => true,
    }
}

/// What a function whose body starts with `return e` gives when `e`'s value
/// is known in `frames` and `values`.
pub open spec fn returned_value(function: HirFunctionExpression, frames: Seq<Vec<(SymbolId, ComptimeValue)>>,
    values: Map<u32, ComptimeValue>, target: TargetInfo) -> Option<ComptimeValue> {
    if function.body.statements@.len() > 0 {
        match function.body.statements@[0].data {
            HirStatementData::Return(Some(e)) => constant_value(e, frames, values, target),
            _ => None,
        }
    } else {
        None
    }
}

/// The evaluation steps that running such a body to its first `return` takes.
pub open spec fn body_steps(function: HirFunctionExpression) -> nat {
    if function.body.statements@.len() > 0 {
        match function.body.statements@[0].data {
            HirStatementData::Return(Some(e)) => node_count(e) + 2,
            _ => 0,
        }
    } else {
        0
    }
}

/// The last position of `symbol` in `frame`, if it occurs.
pub open spec fn last_position(frame: Seq<(SymbolId, ComptimeValue)>, symbol: SymbolId) -> Option<int>
    decreases frame.len(),
{
    if frame.len() == 0 {
        None
    } else if frame.last().0 == symbol {
        Some(frame.len() - 1)
    } else {
        last_position(frame.drop_last(), symbol)
    }
}

/// `frame` with `symbol` bound to `value`: its latest entry for `symbol`
/// replaced, or a new entry at the end.
pub open spec fn frame_assign(frame: Seq<(SymbolId, ComptimeValue)>, symbol: SymbolId, value: ComptimeValue) -> Seq<(SymbolId, ComptimeValue)> {
    match last_position(frame, symbol) {
        Some(p) => frame.update(p, (symbol, value)),
        None => frame.push((symbol, value)),
    }
}

/// The frame of a call: the captured values, then the first `n` parameters
/// bound to the argument values in order.
pub open spec fn bound_frame(captures: Seq<(SymbolId, ComptimeValue)>, parameters: Seq<HirParameter>,
    arguments: Seq<ComptimeValue>, n: nat) -> Seq<(SymbolId, ComptimeValue)>
    decreases n,
{
    if n == 0 {
        captures
    } else {
        frame_assign(bound_frame(captures, parameters, arguments, (n - 1) as nat), parameters[n - 1].symbol, arguments[n - 1])
    }
}

/// The frame in which a call runs the callee's body.
pub open spec fn call_frame(captures: Seq<(SymbolId, ComptimeValue)>, parameters: Seq<HirParameter>,
    arguments: Seq<ComptimeValue>) -> Seq<(SymbolId, ComptimeValue)> {
    bound_frame(captures, parameters, arguments,
        (if parameters.len() < arguments.len() { parameters.len() } else { arguments.len() }) as nat)
}

/// A plain compile-time value: an integer or a boolean.
pub open spec fn plain_value(v: ComptimeValue) -> bool {
    v is Integer || v is Bool
}

/// The steps that evaluating all of `expressions` takes when their values
/// are known beforehand.
pub open spec fn nodes_total(expressions: Seq<HirExpression>) -> nat
    decreases expressions.len(),
{
    if expressions.len() == 0 {
        0
    } else {
        nodes_total(expressions.drop_last()) + node_count(expressions.last())
    }
}

/// The compile-time function that `callee` names without needing a call:
/// a known function, or a name whose value is a function.
pub open spec fn called_function(e: Elaborator, callee: HirExpression) -> Option<FunctionId> {
    match callee.data {
        HirExpressionData::KnownFunction(id) => Some(id),
        HirExpressionData::Symbol(s) => match visible_value(e.frames@, e.values.view_values(), s) {
            Some(ComptimeValue::Function(id)) => Some(id),
            _ => None,
        },
        _ => None,
    }
}

/// Each of `arguments` has a plain value known beforehand.
pub open spec fn arguments_known(e: Elaborator, arguments: Seq<HirExpression>) -> bool {
    forall|i: int| 0 <= i < arguments.len() ==> known_plain(#[trigger] constant_value(arguments[i], e.frames@, e.values.view_values(), e.target))
}

/// A value known beforehand that is plain.
pub open spec fn known_plain(known: Option<ComptimeValue>) -> bool {
    known matches Some(v) && plain_value(v)
}

/// The values known beforehand of `arguments`.
pub open spec fn known_arguments(e: Elaborator, arguments: Seq<HirExpression>) -> Seq<ComptimeValue> {
    Seq::new(arguments.len(), |i: int| constant_value(arguments[i], e.frames@, e.values.view_values(), e.target)->0)
}

/// A call whose callee and plain arguments are known beforehand, of a
/// function that captures only plain values: the function, and the frame in
/// which its body runs.
pub open spec fn known_call(e: Elaborator, callee: HirExpression, arguments: Seq<HirExpression>)
    -> Option<(ComptimeFunction, Seq<(SymbolId, ComptimeValue)>)> {
    match called_function(e, callee) {
        Some(id) => if id.0 < e.functions.view_functions().len() && arguments_known(e, arguments)
            && (forall|c: int| 0 <= c < e.functions.view_functions()[id.0 as int].captures@.len() ==>
                plain_value(#[trigger] e.functions.view_functions()[id.0 as int].captures@[c].1)) {
            let f = e.functions.view_functions()[id.0 as int];
            Some((f, call_frame(f.captures@, f.hir.parameters@, known_arguments(e, arguments))))
        } else {
            None
        },
        None => None,
    }
}

/// The steps that running `f`'s body to its first `return` takes.
pub open spec fn function_steps(f: ComptimeFunction) -> nat {
    body_steps(*f.hir)
}

/// What `f` returns when its body starts with `return e` and `e`'s value is
/// known in `frames` and `values`.
pub open spec fn function_returned_value(f: ComptimeFunction, frames: Seq<Vec<(SymbolId, ComptimeValue)>>,
    values: Map<u32, ComptimeValue>, target: TargetInfo) -> Option<ComptimeValue> {
    returned_value(*f.hir, frames, values, target)
}

/// The body of `f`.
pub open spec fn function_body(f: ComptimeFunction) -> HirBlock {
    f.hir.body
}

/// The steps of a prefix of `expressions` grow by the nodes of the next one.
proof fn lemma_nodes_total_prefix(expressions: Seq<HirExpression>, n: int)
    requires
        0 < n <= expressions.len(),
    ensures
        nodes_total(expressions.take(n)) == nodes_total(expressions.take(n - 1)) + node_count(expressions[n - 1]),
        nodes_total(expressions.take(n)) <= nodes_total(expressions),
    decreases expressions.len() - n,
{
    assert(expressions.take(n).drop_last() =~= expressions.take(n - 1));
    if n < expressions.len() {
        lemma_nodes_total_prefix(expressions, n + 1);
    } else {
        assert(expressions.take(n) =~= expressions);
    }
}

/// Law: what is known of an expression depends only on what its names
/// stand for.
pub proof fn lemma_constant_value_by_lookup(e: HirExpression, f1: Seq<Vec<(SymbolId, ComptimeValue)>>,
    f2: Seq<Vec<(SymbolId, ComptimeValue)>>, values: Map<u32, ComptimeValue>, target: TargetInfo)
    requires
        forall|s: SymbolId| #[trigger] visible_value(f1, values, s) == visible_value(f2, values, s),
    ensures
        constant_value(e, f1, values, target) == constant_value(e, f2, values, target),
    decreases e,
{
    match e.data {
        HirExpressionData::Binary { lhs, rhs, .. } => {
            lemma_constant_value_by_lookup(*lhs, f1, f2, values, target);
            lemma_constant_value_by_lookup(*rhs, f1, f2, values, target);
        },
        HirExpressionData::Symbol(s) => {
            assert(visible_value(f1, values, s) == visible_value(f2, values, s));
        },
        HirExpressionData::Unary { operand, .. } => {
            lemma_constant_value_by_lookup(*operand, f1, f2, values, target);
        },
        _ => {},
    }
}

/// Law: pushing two frames with the same entries makes every name stand for
/// the same value.
pub proof fn lemma_same_frame_same_lookup(frames: Seq<Vec<(SymbolId, ComptimeValue)>>, a: Vec<(SymbolId, ComptimeValue)>,
    b: Vec<(SymbolId, ComptimeValue)>, values: Map<u32, ComptimeValue>)
    requires
        a@ == b@,
    ensures
        forall|s: SymbolId| #[trigger] visible_value(frames.push(a), values, s) == visible_value(frames.push(b), values, s),
{
    assert(frames.push(a).drop_last() =~= frames);
    assert(frames.push(b).drop_last() =~= frames);
}

/// Law: the arithmetic operators compute what they are named for: a sum
/// from which the right operand subtracts back to the left one, a
/// difference to which the right operand adds back, a product, and a
/// quotient rounded toward zero, whose remainder is smaller than the divisor
/// and has the dividend's sign.
pub proof fn law_arithmetic_operators(l: int, r: int)
    ensures
        arithmetic_result(BinaryOperator::Add, l, r) - r == l,
        arithmetic_result(BinaryOperator::Subtract, l, r) + r == l,
        arithmetic_result(BinaryOperator::Multiply, l, r) == l * r,
        r != 0 ==> {
            let q = arithmetic_result(BinaryOperator::Divide, l, r);
            let rem = l - q * r;
            &&& (if rem < 0 { -rem } else { rem }) < (if r < 0 { -r } else { r })
            &&& rem == 0 || ((rem > 0) == (l > 0))
        },
{
    if r != 0 {
        let q = arithmetic_result(BinaryOperator::Divide, l, r);
        if l == 0 {
        } else if l > 0 && r > 0 {
            assert(l - (l / r) * r == l % r) by (nonlinear_arith) requires r > 0;
        } else if l < 0 && r < 0 {
            let a = l * -1;
            let d = r * -1;
            assert(a - (a / d) * d == a % d) by (nonlinear_arith) requires d > 0;
            assert(l - q * r == -(a - (a / d) * d)) by (nonlinear_arith) requires q == a / d, a == l * -1, d == r * -1;
        } else if l < 0 {
            let a = l * -1;
            assert(a - (a / r) * r == a % r) by (nonlinear_arith) requires r > 0;
            assert(l - q * r == -(a - (a / r) * r)) by (nonlinear_arith) requires q == (a / r) * -1, a == l * -1;
        } else {
            let d = r * -1;
            assert(l - (l / d) * d == l % d) by (nonlinear_arith) requires d > 0;
            assert(l - q * r == l - (l / d) * d) by (nonlinear_arith) requires q == (l / d) * -1, d == r * -1;
        }
    }
}

/// Law: each comparison operator decides the relation it is named for.
pub proof fn law_comparison_operators(l: int, r: int)
    ensures
        comparison_result(BinaryOperator::Equal, l, r) == (l == r),
        comparison_result(BinaryOperator::NotEqual, l, r) == (l != r),
        comparison_result(BinaryOperator::LessThan, l, r) == (l < r),
        comparison_result(BinaryOperator::LessThanOrEqual, l, r) == (l <= r),
        comparison_result(BinaryOperator::GreaterThan, l, r) == (l > r),
        comparison_result(BinaryOperator::GreaterThanOrEqual, l, r) == (l >= r),
{
}

/// The quotient of `x` by `d`, rounded toward zero, as Rust's `/` computes it.
pub open spec fn truncated_quotient(x: int, d: int) -> int {
    if x == 0 {
        0
    } else if x > 0 && d > 0 {
        x / d
    } else if x < 0 && d < 0 {
        (x * -1) / (d * -1)
    } else if x < 0 {
        ((x * -1) / d) * -1
    } else {
        (x / (d * -1)) * -1
    }
}

/// The exact result of an arithmetic operator on two integers; the divisor
/// of a division is not zero.
pub open spec fn arithmetic_result(operator: BinaryOperator, l: int, r: int) -> int {
    match operator {
        BinaryOperator::Add => l + r,
        BinaryOperator::Subtract => l - r,
        BinaryOperator::Multiply => l * r,
        _ => truncated_quotient(l, r),
    }
}

/// How an arithmetic operation at compile time ends.
#[derive(Debug, Clone, Copy, PartialEq, Eq, Structural)]
pub enum IntegerOutcome {
    /// The result, which fits in the operands' type.
    Value(i128),
    /// The divisor is zero.
    DivisionByZero,
    /// The result does not fit in 128 bits.
    Overflow,
    /// The result fits in 128 bits but not in the operands' type.
    OutOfRange(i128),
}

/// The outcome of `l operator r` on operands of type `t`: division by zero
/// is refused, and a result must fit in 128 bits and then in `t`.
pub open spec fn integer_outcome(operator: BinaryOperator, l: i128, r: i128, t: IntegerType, target: TargetInfo) -> IntegerOutcome {
    if operator is Divide && r == 0 {
        IntegerOutcome::DivisionByZero
    } else {
        let v = arithmetic_result(operator, l as int, r as int);
        if v < i128::MIN || v > i128::MAX {
            IntegerOutcome::Overflow
        } else if v < spec_minimum(t, target) || v > spec_maximum(t, target) {
            IntegerOutcome::OutOfRange(v as i128)
        } else {
            IntegerOutcome::Value(v as i128)
        }
    }
}

/// The result of comparing two integers with a comparison operator.
pub open spec fn comparison_result(operator: BinaryOperator, l: int, r: int) -> bool {
    match operator {
        BinaryOperator::Equal => l == r,
        BinaryOperator::NotEqual => l != r,
        BinaryOperator::LessThan => l < r,
        BinaryOperator::LessThanOrEqual => l <= r,
        BinaryOperator::GreaterThan => l > r,
        _ => l >= r,
    }
}

/// Whether an operator computes a number rather than a truth value.
pub open spec fn is_arithmetic(operator: BinaryOperator) -> bool {
    operator is Add || operator is Subtract || operator is Multiply || operator is Divide
}

/// Applies an arithmetic operator to two integers of type `t`.
pub fn apply_integer_operation(operator: BinaryOperator, l: i128, r: i128, t: IntegerType, target: &TargetInfo) -> (outcome: IntegerOutcome)
    requires
        is_arithmetic(operator),
        supported_width(*target),
    ensures
        outcome == integer_outcome(operator, l, r, t, *target),
{
    let result = match operator {
        BinaryOperator::Add => l.checked_add(r),
        BinaryOperator::Subtract => l.checked_sub(r),
        BinaryOperator::Multiply => l.checked_mul(r),
        _ => {
            if r == 0 {
                return IntegerOutcome::DivisionByZero;
            }
            l.checked_div(r)
        },
    };
    match result {
        None => IntegerOutcome::Overflow,
        Some(v) => {
            if t.contains(v, target) {
                IntegerOutcome::Value(v)
            } else {
                IntegerOutcome::OutOfRange(v)
            }
        },
    }
}

/// Compares two integers with a comparison operator.
pub fn apply_comparison(operator: BinaryOperator, l: i128, r: i128) -> (result: bool)
    requires
        !is_arithmetic(operator),
    ensures
        result == comparison_result(operator, l as int, r as int),
{
    match operator {
        BinaryOperator::Equal => l == r,
        BinaryOperator::NotEqual => l != r,
        BinaryOperator::LessThan => l < r,
        BinaryOperator::LessThanOrEqual => l <= r,
        BinaryOperator::GreaterThan => l > r,
        _ => l >= r,
    }
}

/// The negation of `value`, unless it does not fit in 128 bits.
pub fn checked_negation(value: i128) -> (result: Option<i128>)
    ensures
        match result {
            Some(v) => v == -value,
            None => -value > i128::MAX,
        },
{
    if value == i128::MIN {
        None
    } else {
        Some(-value)
    }
}

/// What evaluating `symbol`, of kind `kind`, gives when it has no
/// compile-time value: a built-in type is that type; an external function
/// is a reference to it; a pending compile-time binding is evaluated first;
/// every other kind (runtime bindings, parameters and locals) is unavailable
/// at compile time, which is reported.
pub open spec fn unavailable_value(symbol: SymbolId, kind: SymbolKind, value: ComptimeValue, reported_before: nat, reported_after: nat) -> bool {
    match kind {
        SymbolKind::BuiltinType(t) => value matches ComptimeValue::Type(u) && type_eq(u, t),
        SymbolKind::ExternFunction { .. } => value == ComptimeValue::ExternFunction(symbol),
        SymbolKind::Binding { phase: Phase::Comptime, .. } => true,
        _ => value is Error && reported_after == reported_before + 1,
    }
}

/// The value of the latest entry for `symbol` in a call frame.
pub open spec fn frame_value(frame: Seq<(SymbolId, ComptimeValue)>, symbol: SymbolId) -> Option<ComptimeValue>
    decreases frame.len(),
{
    if frame.len() == 0 {
        None
    } else if frame.last().0 == symbol {
        Some(frame.last().1)
    } else {
        frame_value(frame.drop_last(), symbol)
    }
}

/// The compile-time value that `symbol` has: in the innermost call frame
/// that binds it, else among the values of the top-level bindings.
pub open spec fn visible_value(
    frames: Seq<Vec<(SymbolId, ComptimeValue)>>,
    values: Map<u32, ComptimeValue>,
    symbol: SymbolId,
) -> Option<ComptimeValue>
    decreases frames.len(),
{
    if frames.len() == 0 {
        if values.contains_key(symbol.0) { Some(values[symbol.0]) } else { None }
    } else {
        match frame_value(frames.last()@, symbol) {
            Some(v) => Some(v),
            None => visible_value(frames.drop_last(), values, symbol),
        }
    }
}

/// The value of the latest entry for `symbol` in `frame`.
fn frame_get(frame: &Vec<(SymbolId, ComptimeValue)>, symbol: SymbolId) -> (value: Option<ComptimeValue>)
    ensures
        match frame_value(frame@, symbol) {
            Some(v) => value matches Some(copy) && value_eq(copy, v),
            None => value is None,
        },
{
    assert(frame@.take(frame@.len() as int) =~= frame@);
    let mut i: usize = frame.len();
    while i > 0
        invariant
            i <= frame@.len(),
            frame_value(frame@, symbol) == frame_value(frame@.take(i as int), symbol),
        decreases i,
    {
        assert(frame@.take(i as int).drop_last() =~= frame@.take(i - 1));
        if frame[i - 1].0 == symbol {
            return Some(frame[i - 1].1.duplicate());
        }
        i = i - 1;
    }
    None
}

/// Where in `frame` the latest entry for `symbol` is.
fn frame_position(frame: &Vec<(SymbolId, ComptimeValue)>, symbol: SymbolId) -> (position: Option<usize>)
    ensures
        position matches Some(p) ==> p < frame@.len() && frame@[p as int].0 == symbol,
        position is None ==> frame_value(frame@, symbol) is None,
        match position {
            Some(p) => last_position(frame@, symbol) == Some(p as int),
            None => last_position(frame@, symbol) is None,
        },
{
    assert(frame@.take(frame@.len() as int) =~= frame@);
    let mut i: usize = frame.len();
    while i > 0
        invariant
            i <= frame@.len(),
            frame_value(frame@, symbol) == frame_value(frame@.take(i as int), symbol),
            last_position(frame@, symbol) == last_position(frame@.take(i as int), symbol),
        decreases i,
    {
        assert(frame@.take(i as int).drop_last() =~= frame@.take(i - 1));
        if frame[i - 1].0 == symbol {
            return Some(i - 1);
        }
        i = i - 1;
    }
    None
}

/// Law: replacing the value of an entry for `symbol` makes it the value
/// that the frame gives for `symbol` when it is the latest entry for it, and
/// leaves what the frame gives for every other symbol unchanged.
proof fn lemma_frame_update(frame: Seq<(SymbolId, ComptimeValue)>, p: int, symbol: SymbolId, value: ComptimeValue, other: SymbolId)
    requires
        0 <= p < frame.len(),
        frame[p].0 == symbol,
    ensures
        other != symbol ==> frame_value(frame.update(p, (symbol, value)), other) == frame_value(frame, other),
    decreases frame.len(),
{
    let updated = frame.update(p, (symbol, value));
    if p < frame.len() - 1 {
        assert(updated.drop_last() =~= frame.drop_last().update(p, (symbol, value)));
        assert(updated.last() == frame.last());
        lemma_frame_update(frame.drop_last(), p, symbol, value, other);
    } else {
        assert(updated.drop_last() =~= frame.drop_last());
    }
}

/// A frame with an entry for `symbol` gives a value for it.
proof fn lemma_frame_has(frame: Seq<(SymbolId, ComptimeValue)>, p: int, symbol: SymbolId)
    requires
        0 <= p < frame.len(),
        frame[p].0 == symbol,
    ensures
        frame_value(frame, symbol) is Some,
    decreases frame.len(),
{
    if frame.last().0 != symbol {
        lemma_frame_has(frame.drop_last(), p, symbol);
    }
}

/// Sets the value of `symbol` in `frame`, adding an entry when it has none:
/// afterwards the frame binds `symbol`, and every other symbol as before.
pub(crate) fn frame_set(frame: &mut Vec<(SymbolId, ComptimeValue)>, symbol: SymbolId, value: ComptimeValue)
    ensures
        frame_value(final(frame)@, symbol) is Some,
        forall|s: SymbolId| s != symbol ==> #[trigger] frame_value(final(frame)@, s) == frame_value(old(frame)@, s),
        final(frame)@ == frame_assign(old(frame)@, symbol, value),
{
    match frame_position(frame, symbol) {
        Some(p) => {
            proof {
                assert forall|s: SymbolId| s != symbol implies
                    #[trigger] frame_value(old(frame)@.update(p as int, (symbol, value)), s) == frame_value(old(frame)@, s) by {
                    lemma_frame_update(old(frame)@, p as int, symbol, value, s);
                }
                lemma_frame_has(old(frame)@.update(p as int, (symbol, value)), p as int, symbol);
            }
            frame.set(p, (symbol, value));
        },
        None => {
            frame.push((symbol, value));
            proof {
                assert(final(frame)@.drop_last() =~= old(frame)@);
            }
        },
    }
}

impl<'src> Elaborator<'src> {
    /// The compile-time value of `symbol`: the innermost call frame that
    /// binds it, else the values of the top-level bindings.
    pub(crate) fn lookup_value(&self, symbol: SymbolId) -> (value: Option<ComptimeValue>)
        ensures
            match visible_value(self.frames@, self.values.view_values(), symbol) {
                Some(v) => value matches Some(copy) && value_eq(copy, v),
                None => value is None,
            },
    {
        assert(self.frames@.take(self.frames@.len() as int) =~= self.frames@);
        let mut i: usize = self.frames.len();
        while i > 0
            invariant
                i <= self.frames@.len(),
                visible_value(self.frames@, self.values.view_values(), symbol)
                    == visible_value(self.frames@.take(i as int), self.values.view_values(), symbol),
            decreases i,
        {
            assert(self.frames@.take(i as int).drop_last() =~= self.frames@.take(i - 1));
            match frame_get(&self.frames[i - 1], symbol) {
                Some(value) => {
                    return Some(value);
                },
                None => {},
            }
            i = i - 1;
        }
        match self.values.get(symbol) {
            Some(value) => Some(value.duplicate()),
            None => None,
        }
    }

    /// Reports an internal inconsistency found while evaluating.
    fn internal_error(&mut self, span: crate::source::Span, text: &str)
        requires
            old(self).inv(),
        ensures
            old(self).evolves(*final(self)),
            final(self).fuel == old(self).fuel,
            final(self).diagnostics@.len() == old(self).diagnostics@.len() + 1,
    {
        self.report(error_str("Internal Compiler Error", span, text));
    }

    /// Evaluates one statement of a function that runs at compile time.
    pub(crate) fn evaluate_statement(&mut self, statement: &HirStatement) -> (flow: EvaluationFlow)
        requires
            old(self).inv(),
            old(self).statement_within(*statement),
            old(self).frames@.len() > 0,
        ensures
            old(self).runs_statements(*final(self)),
            match statement.data {
                HirStatementData::Error => flow is Error,
                HirStatementData::Return(None) => old(self).fuel > 0 ==> flow == EvaluationFlow::Return(ComptimeValue::Unit),
                HirStatementData::Return(Some(e)) => {
                    &&& old(self).fuel > 0 ==> flow is Return
                    &&& match constant_value(e, old(self).frames@, old(self).values.view_values(), old(self).target) {
                        Some(v) => old(self).fuel > node_count(e) ==> flow == EvaluationFlow::Return(v),
                        None => true,
                    }
                },
                HirStatementData::Expression(_) | HirStatementData::Assignment { .. } => flow is Continue || flow is Error,
                HirStatementData::Binding { symbol, .. } => {
                    &&& flow is Continue || flow is Error
                    &&& flow is Continue ==> final(self).frames@.len() > 0
                        && frame_value(final(self).frames@.last()@, symbol) is Some
                },
                HirStatementData::If { condition, then_block, else_branch } => match constant_value(condition, old(self).frames@, old(self).values.view_values(), old(self).target) {
                    Some(ComptimeValue::Bool(b)) => old(self).fuel > node_count(condition) + 2 ==> match chosen_block(b, then_block, else_branch) {
                        Some(block) => plain_block_flow(block) matches Some(f) ==> flow == f,
                        None => !b && else_branch is None ==> flow is Continue,
                    },
                    _ => true,
                },
                HirStatementData::While { condition, while_block } => match constant_value(condition, old(self).frames@, old(self).values.view_values(), old(self).target) {
                    Some(ComptimeValue::Bool(false)) => old(self).fuel > node_count(condition) + 1 ==> flow is Continue,
                    Some(ComptimeValue::Bool(true)) => old(self).fuel > node_count(condition) + 3
                        && plain_block_flow(while_block) == Some(EvaluationFlow::Return(ComptimeValue::Unit))
                        ==> flow == EvaluationFlow::Return(ComptimeValue::Unit),
                    _ => true,
                },
                _ => true,
            },
        decreases old(self).fuel, 0nat,
    {
        if !self.tick(statement.span) {
            return EvaluationFlow::Error;
        }
        proof {
            old(self).lemma_statement_within_persists(*self, *statement);
        }
        match &statement.data {
            HirStatementData::Error => EvaluationFlow::Error,
            HirStatementData::Expression(expression) => {
                let value = self.evaluate_expression(expression);
                if value.is_error() { EvaluationFlow::Error } else { EvaluationFlow::Continue }
            },
            HirStatementData::Assignment { target, expression } => {
                let value = self.evaluate_expression(expression);
                if value.is_error() {
                    return EvaluationFlow::Error;
                }
                match &target.data {
                    HirPlaceData::Symbol(symbol) => {
                        let mut frame = self.frames.pop().unwrap();
                        match frame_position(&frame, *symbol) {
                            Some(p) => {
                                frame.set(p, (*symbol, value));
                                self.frames.push(frame);
                                EvaluationFlow::Continue
                            },
                            None => {
                                self.frames.push(frame);
                                self.internal_error(statement.span, "the assigned local is not bound in this call");
                                EvaluationFlow::Error
                            },
                        }
                    },
                    HirPlaceData::Index { .. } => {
                        self.report(error_str("Arrays are not supported at compile time right now", statement.span, ":("));
                        EvaluationFlow::Error
                    },
                }
            },
            HirStatementData::Binding { symbol, expression } => {
                let value = self.evaluate_expression(expression);
                if value.is_error() {
                    return EvaluationFlow::Error;
                }
                let mut frame = self.frames.pop().unwrap();
                frame_set(&mut frame, *symbol, value);
                self.frames.push(frame);
                EvaluationFlow::Continue
            },
            HirStatementData::Return(Some(expression)) => EvaluationFlow::Return(self.evaluate_expression(expression)),
            HirStatementData::Return(None) => EvaluationFlow::Return(ComptimeValue::Unit),
            HirStatementData::While { condition, while_block } => {
                let ghost mut first = true;
                loop
                    invariant
                        old(self).runs_statements(*self),
                        old(self).frames@.len() > 0,
                        statement.data == (HirStatementData::While { condition: *condition, while_block: *while_block }),
                        self.fuel < old(self).fuel,
                        self.refers_within(*condition),
                        self.block_within(*while_block),
                        first ==> self.fuel == old(self).fuel - 1,
                        first ==> self.frames@ == old(self).frames@ && self.values == old(self).values,
                        self.target == old(self).target,
                        !first ==> (constant_value(*condition, old(self).frames@, old(self).values.view_values(), old(self).target) == Some(ComptimeValue::Bool(true))
                            && plain_block_flow(*while_block) == Some(EvaluationFlow::Return(ComptimeValue::Unit))
                            ==> old(self).fuel <= node_count(*condition) + 3),
                        !first ==> !(constant_value(*condition, old(self).frames@, old(self).values.view_values(), old(self).target) == Some(ComptimeValue::Bool(false))
                            && old(self).fuel > node_count(*condition) + 1),
                    decreases self.fuel,
                {
                    let ghost before = *self;
                    if !self.tick(condition.span) {
                        return EvaluationFlow::Error;
                    }
                    proof {
                        before.lemma_within_persists(*self, *condition);
                    }
                    match self.evaluate_expression(condition) {
                        ComptimeValue::Bool(false) => {
                            return EvaluationFlow::Continue;
                        },
                        ComptimeValue::Bool(true) => {},
                        ComptimeValue::Error => {
                            return EvaluationFlow::Error;
                        },
                        _ => {
                            self.report(error_str("Internal Compiler Error", condition.span, "not a boolean expression"));
                            return EvaluationFlow::Error;
                        },
                    }
                    proof {
                        before.lemma_block_within_persists(*self, *while_block);
                    }
                    let ghost after_condition = *self;
                    match self.evaluate_block(while_block) {
                        EvaluationFlow::Continue => {
                            proof {
                                before.lemma_within_persists(*self, *condition);
                                after_condition.lemma_block_within_persists(*self, *while_block);
                                first = false;
                            }
                        },
                        EvaluationFlow::Return(value) => {
                            return EvaluationFlow::Return(value);
                        },
                        EvaluationFlow::Error => {
                            return EvaluationFlow::Error;
                        },
                    }
                }
            },
            HirStatementData::If { condition, then_block, else_branch } => {
                let ghost before = *self;
                let value = self.evaluate_expression(condition);
                proof {
                    before.lemma_block_within_persists(*self, *then_block);
                    match else_branch {
                        Some(HirElseBranch::Else(block)) => before.lemma_block_within_persists(*self, *block),
                        Some(HirElseBranch::ElseIf(nested)) => before.lemma_statement_within_persists(*self, **nested),
                        None => {},
                    }
                }
                match value {
                    ComptimeValue::Bool(true) => self.evaluate_block(then_block),
                    ComptimeValue::Bool(false) => match else_branch {
                        Some(HirElseBranch::Else(block)) => self.evaluate_block(block),
                        Some(HirElseBranch::ElseIf(nested)) => self.evaluate_statement(nested),
                        None => EvaluationFlow::Continue,
                    },
                    _ => EvaluationFlow::Error,
                }
            },
        }
    }

    /// Evaluates the statements of a block in order, until one returns or fails.
    pub(crate) fn evaluate_block(&mut self, block: &HirBlock) -> (flow: EvaluationFlow)
        requires
            old(self).inv(),
            old(self).block_within(*block),
            old(self).frames@.len() > 0,
        ensures
            old(self).runs_statements(*final(self)),
            old(self).fuel == 0 ==> flow is Error,
            old(self).fuel > 0 && block.statements@.len() == 0 ==> flow is Continue,
            old(self).fuel > 1 && block.statements@.len() > 0 && block.statements@[0].data == HirStatementData::Return(None)
                ==> flow == EvaluationFlow::Return(ComptimeValue::Unit),
            old(self).fuel > 1 && block.statements@.len() > 0 && block.statements@[0].data is Return
                ==> flow is Return,
        decreases old(self).fuel, 0nat,
    {
        if !self.tick(block.span) {
            return EvaluationFlow::Error;
        }
        proof {
            old(self).lemma_block_within_persists(*self, *block);
        }
        let mut i: usize = 0;
        while i < block.statements.len()
            invariant
                old(self).runs_statements(*self),
                old(self).frames@.len() > 0,
                self.fuel < old(self).fuel,
                self.block_within(*block),
                i == 0 ==> self.fuel == old(self).fuel - 1,
                i > 0 && old(self).fuel > 1 ==> !(block.statements@[0].data is Return),
            decreases block.statements@.len() - i,
        {
            let ghost before = *self;
            match self.evaluate_statement(&block.statements[i]) {
                EvaluationFlow::Continue => {
                    proof {
                        before.lemma_block_within_persists(*self, *block);
                    }
                },
                flow => {
                    return flow;
                },
            }
            i += 1;
        }
        EvaluationFlow::Continue
    }

    /// Evaluates an expression at compile time; a failure is reported and
    /// gives the error value.
    pub(crate) fn evaluate_expression(&mut self, expression: &HirExpression) -> (value: ComptimeValue)
        requires
            old(self).inv(),
            old(self).refers_within(*expression),
        ensures
            old(self).evolves(*final(self)),
            constant_evaluation(*old(self), *final(self), *expression, value),
            match expression.data {
                HirExpressionData::Call { callee, arguments } => match known_call(*old(self), *callee, arguments@) {
                    Some((f, frame)) => old(self).fuel > 2 + nodes_total(arguments@) + function_steps(f) ==>
                        forall|pushed: Vec<(SymbolId, ComptimeValue)>| pushed@ == frame ==>
                            match #[trigger] function_returned_value(f, old(self).frames@.push(pushed), old(self).values.view_values(), old(self).target) {
                                Some(v) => value == v,
                                None => true,
                            },
                    None => true,
                },
                _ => true,
            },
            old(self).fuel > 0 && (expression.data is KnownFunction || called_function(*old(self), *expression) is Some) ==> {
                &&& value == ComptimeValue::Function(called_function(*old(self), *expression)->0)
                &&& final(self).fuel == old(self).fuel - 1
                &&& final(self).values == old(self).values
                &&& final(self).functions == old(self).functions
                &&& final(self).diagnostics == old(self).diagnostics
            },
            match expression.data {
                HirExpressionData::Binary { lhs, operator, rhs } => old(self).fuel >= node_count(*expression) ==>
                    match arithmetic_failure(operator, constant_value(*lhs, old(self).frames@, old(self).values.view_values(), old(self).target),
                        constant_value(*rhs, old(self).frames@, old(self).values.view_values(), old(self).target), old(self).target) {
                        Some(message) => final(self).diagnostics@.len() == old(self).diagnostics@.len() + 1
                            && final(self).diagnostics@.last()@.message == message,
                        None => true,
                    },
                _ => true,
            },
            old(self).fuel > 0 ==> match expression.data {
                HirExpressionData::Bool(b) => value == ComptimeValue::Bool(b),
                HirExpressionData::StringLiteral(text) => value == ComptimeValue::String(text),
                HirExpressionData::TypeValue(t) => value matches ComptimeValue::Type(u) && type_eq(u, t),
                HirExpressionData::FunctionTemplate(template) => value == ComptimeValue::FunctionTemplate(template),
                HirExpressionData::KnownFunction(function) => value == ComptimeValue::Function(function),
                HirExpressionData::Integer(v) => match expression.type_ {
                    Type::Integer(t) => value == (ComptimeValue::Integer { value: v, type_: t }),
                    _ => value is Error,
                },
                HirExpressionData::Function(function) => old(self).functions.view_functions().len() < u32::MAX ==> {
                    &&& value == ComptimeValue::Function(FunctionId(old(self).functions.view_functions().len() as u32))
                    &&& final(self).functions.view_functions().len() == old(self).functions.view_functions().len() + 1
                    &&& final(self).functions.view_functions().drop_last() == old(self).functions.view_functions()
                    &&& final(self).functions.view_functions().last().hir == function
                    &&& final(self).functions.view_functions().last().captures@.len() == 0
                },
                HirExpressionData::Index { .. } | HirExpressionData::ArrayRepeatInitialization { .. } => {
                    &&& value is Error
                    &&& final(self).diagnostics@.len() == old(self).diagnostics@.len() + 1
                },
                HirExpressionData::Error => value is Error,
                HirExpressionData::Symbol(symbol) => match visible_value(old(self).frames@, old(self).values.view_values(), symbol) {
                    Some(v) => value_eq(value, v),
                    None => unavailable_value(
                        symbol,
                        old(self).symbols.symbols@[symbol.0 as int].kind,
                        value,
                        old(self).diagnostics@.len(),
                        final(self).diagnostics@.len(),
                    ),
                },
                _ => true,
            },
        decreases old(self).fuel, 0nat,
    {
        if !self.tick(expression.span) {
            return ComptimeValue::Error;
        }
        proof {
            old(self).lemma_within_persists(*self, *expression);
        }
        match &expression.data {
            HirExpressionData::Index { .. } | HirExpressionData::ArrayRepeatInitialization { .. } => {
                self.report(error_str("Arrays are currently unsupported in comptime", expression.span, ":("));
                ComptimeValue::Error
            },
            HirExpressionData::Bool(value) => ComptimeValue::Bool(*value),
            HirExpressionData::StringLiteral(text) => ComptimeValue::String(text.clone()),
            HirExpressionData::TypeValue(t) => ComptimeValue::Type(t.duplicate()),
            HirExpressionData::Function(function) => {
                if self.functions.len() >= 0xffff_ffff {
                    self.report(error_str("Too many functions", expression.span, "the compiler cannot name more functions"));
                    return ComptimeValue::Error;
                }
                proof {
                    let count = self.function_count();
                    self.lemma_stored_within_grows(
                        self.symbols.symbols@.len(), count, self.template_count(),
                        self.symbols.symbols@.len(), count + 1, self.template_count(),
                    );
                    lemma_expression_refs_grow(*expression,
                        self.symbols.symbols@.len(), count, self.template_count(),
                        self.symbols.symbols@.len(), count + 1, self.template_count());
                }
                let id = self.functions.insert(ComptimeFunction { hir: share(function), captures: Vec::new() });
                ComptimeValue::Function(id)
            },
            HirExpressionData::FunctionTemplate(template) => ComptimeValue::FunctionTemplate(*template),
            HirExpressionData::KnownFunction(function) => ComptimeValue::Function(*function),
            HirExpressionData::Integer(value) => match expression.type_.as_integer() {
                Some(t) => ComptimeValue::Integer { value: *value, type_: t },
                None => ComptimeValue::Error,
            },
            HirExpressionData::Unary { operator, operand } => self.evaluate_negation(expression, *operator, operand),
            HirExpressionData::Binary { lhs, operator, rhs } => self.evaluate_binary(expression, lhs, *operator, rhs),
            HirExpressionData::Call { callee, arguments } => self.evaluate_call(callee, arguments),
            HirExpressionData::Symbol(symbol) => self.evaluate_symbol(expression, *symbol),
            HirExpressionData::Error => ComptimeValue::Error,
        }
    }

    fn evaluate_negation(&mut self, expression: &HirExpression, operator: UnaryOperator, operand: &HirExpression) -> (value: ComptimeValue)
        requires
            old(self).inv(),
            old(self).refers_within(*operand),
        ensures
            old(self).evolves(*final(self)),
            value is Error || (value matches ComptimeValue::Integer { value: v, type_: t } && spec_is_signed(t)
                && spec_minimum(t, old(self).target) <= v <= spec_maximum(t, old(self).target)),
            match constant_value(*operand, old(self).frames@, old(self).values.view_values(), old(self).target) {
                Some(v) => old(self).fuel >= node_count(*operand) ==> {
                    &&& value == negation_value(v, old(self).target)
                    &&& final(self).fuel == old(self).fuel - node_count(*operand)
                    &&& final(self).values == old(self).values
                    &&& final(self).functions == old(self).functions
                    &&& !(value is Error) ==> final(self).diagnostics@.len() == old(self).diagnostics@.len()
                },
                None => true,
            },
        decreases old(self).fuel, 1nat,
    {
        let operand = self.evaluate_expression(operand);
        self.negate_value(expression, operand)
    }

    /// The compile-time value of `-operand`; a failure is reported unless the
    /// operand already is an error.
    pub fn negate_value(&mut self, expression: &HirExpression, operand: ComptimeValue) -> (value: ComptimeValue)
        requires
            old(self).inv(),
        ensures
            old(self).evolves(*final(self)),
            final(self).fuel == old(self).fuel,
            final(self).values == old(self).values,
            final(self).functions == old(self).functions,
            value == negation_value(operand, old(self).target),
            value is Error || (value matches ComptimeValue::Integer { value: v, type_: t } && spec_is_signed(t)
                && spec_minimum(t, old(self).target) <= v <= spec_maximum(t, old(self).target)),
            operand is Error || !(value is Error) ==> final(self).diagnostics == old(self).diagnostics,
            !(operand is Error) && value is Error ==> final(self).diagnostics@.len() == old(self).diagnostics@.len() + 1,
    {
        match operand {
            ComptimeValue::Integer { value, type_ } => {
                if !type_.is_signed() {
                    let text = join(join(String::from_str("`"), type_.name()), "` is unsigned");
                    self.report(Diagnostic::error(String::from_str("Cannot negate unsigned integer"), expression.span, text));
                    return ComptimeValue::Error;
                }
                let negated = match checked_negation(value) {
                    Some(v) => v,
                    None => {
                        self.report(error_str("Integer overflow", expression.span, "negation overflowed"));
                        return ComptimeValue::Error;
                    },
                };
                if !type_.contains(negated, &self.target) {
                    let text = join(join(join(join(String::from_str("result `"), decimal_text(negated).as_str()), "` does not fit in `"), type_.name()), "`");
                    self.report(Diagnostic::error(String::from_str("Integer overflow"), expression.span, text));
                    return ComptimeValue::Error;
                }
                ComptimeValue::Integer { value: negated, type_ }
            },
            ComptimeValue::Error => ComptimeValue::Error,
            _ => {
                self.report(error_str("Evil bad", expression.span, "Fix my diagnostic later"));
                ComptimeValue::Error
            },
        }
    }

    fn evaluate_binary(&mut self, expression: &HirExpression, lhs: &HirExpression, operator: BinaryOperator, rhs: &HirExpression) -> (value: ComptimeValue)
        requires
            old(self).inv(),
            old(self).refers_within(*lhs) && old(self).refers_within(*rhs),
        ensures
            old(self).evolves(*final(self)),
            is_arithmetic(operator) ==> value is Error || value is Integer,
            !is_arithmetic(operator) ==> value is Error || value is Bool,
            value matches ComptimeValue::Integer { value: v, type_: t } ==> spec_minimum(t, old(self).target) <= v <= spec_maximum(t, old(self).target),
            match (constant_value(*lhs, old(self).frames@, old(self).values.view_values(), old(self).target),
                constant_value(*rhs, old(self).frames@, old(self).values.view_values(), old(self).target)) {
                (Some(l), Some(r)) => old(self).fuel >= node_count(*lhs) + node_count(*rhs) ==> {
                    &&& value == binary_value(operator, l, r, old(self).target)
                    &&& final(self).fuel == old(self).fuel - node_count(*lhs) - node_count(*rhs)
                    &&& final(self).values == old(self).values
                    &&& final(self).functions == old(self).functions
                    &&& !(value is Error) ==> final(self).diagnostics@.len() == old(self).diagnostics@.len()
                    &&& match arithmetic_failure(operator, Some(l), Some(r), old(self).target) {
                        Some(message) => final(self).diagnostics@.len() == old(self).diagnostics@.len() + 1
                            && final(self).diagnostics@.last()@.message == message,
                        None => true,
                    }
                },
                _ => true,
            },
        decreases old(self).fuel, 1nat,
    {
        let lhs = self.evaluate_expression(lhs);
        proof {
            old(self).lemma_within_persists(*self, *rhs);
        }
        let rhs = self.evaluate_expression(rhs);
        self.combine_values(expression, operator, lhs, rhs)
    }

    /// Applies `operator` to the compile-time values `lhs` and `rhs`: the
    /// value is `binary_value` of them, and a failure is reported unless an
    /// operand already is an error.
    pub fn combine_values(&mut self, expression: &HirExpression, operator: BinaryOperator, lhs: ComptimeValue, rhs: ComptimeValue) -> (value: ComptimeValue)
        requires
            old(self).inv(),
        ensures
            old(self).evolves(*final(self)),
            final(self).fuel == old(self).fuel,
            final(self).values == old(self).values,
            final(self).functions == old(self).functions,
            value == binary_value(operator, lhs, rhs, old(self).target),
            is_arithmetic(operator) ==> value is Error || value is Integer,
            !is_arithmetic(operator) ==> value is Error || value is Bool,
            value matches ComptimeValue::Integer { value: v, type_: t } ==> spec_minimum(t, old(self).target) <= v <= spec_maximum(t, old(self).target),
            lhs is Error || rhs is Error || !(value is Error) ==> final(self).diagnostics == old(self).diagnostics,
            !(lhs is Error || rhs is Error) && value is Error ==> final(self).diagnostics@.len() == old(self).diagnostics@.len() + 1,
            match arithmetic_failure(operator, Some(lhs), Some(rhs), old(self).target) {
                Some(message) => final(self).diagnostics@.len() == old(self).diagnostics@.len() + 1
                    && final(self).diagnostics@.last()@.message == message,
                None => true,
            },
    {
        if lhs.is_error() || rhs.is_error() {
            return ComptimeValue::Error;
        }
        match (&lhs, &rhs) {
            (ComptimeValue::Integer { value: l, type_: lhs_type }, ComptimeValue::Integer { value: r, type_: rhs_type }) => {
                if *lhs_type != *rhs_type {
                    let text = join(join(join(join(String::from_str("cannot evaluate `"), lhs_type.name()), "` and `"), rhs_type.name()), "` together");
                    self.report(Diagnostic::error(String::from_str("Mismatched integer types"), expression.span, text));
                    return ComptimeValue::Error;
                }
                self.integer_binary(expression, operator, *l, *r, *lhs_type)
            },
            (ComptimeValue::Bool(l), ComptimeValue::Bool(r)) => match operator {
                BinaryOperator::Equal => ComptimeValue::Bool(*l == *r),
                BinaryOperator::NotEqual => ComptimeValue::Bool(*l != *r),
                _ => {
                    let text = join(join(String::from_str("operator `"), operator_text(operator)), "` cannot be applied to booleans");
                    self.report(Diagnostic::error(String::from_str("Invalid boolean operation"), expression.span, text));
                    ComptimeValue::Error
                },
            },
            _ => {
                let text = join(join(join(join(join(join(String::from_str("operator `"), operator_text(operator)), "` cannot be applied to `"), value_debug_text(&lhs).as_str()), "` and `"), value_debug_text(&rhs).as_str()), "`");
                self.report(Diagnostic::error(String::from_str("Invalid compile-time binary operation"), expression.span, text));
                ComptimeValue::Error
            },
        }
    }

    /// Applies `operator` to two integers of type `t` and reports a division
    /// by zero, an overflow, or a result outside `t`.
    fn integer_binary(&mut self, expression: &HirExpression, operator: BinaryOperator, l: i128, r: i128, t: IntegerType) -> (value: ComptimeValue)
        requires
            old(self).inv(),
        ensures
            old(self).evolves(*final(self)),
            final(self).fuel == old(self).fuel,
            final(self).values == old(self).values,
            final(self).functions == old(self).functions,
            is_arithmetic(operator) ==> match integer_outcome(operator, l, r, t, old(self).target) {
                IntegerOutcome::Value(v) => value == (ComptimeValue::Integer { value: v, type_: t })
                    && final(self).diagnostics == old(self).diagnostics,
                IntegerOutcome::DivisionByZero => value is Error
                    && final(self).diagnostics@.len() == old(self).diagnostics@.len() + 1
                    && final(self).diagnostics@.last()@.message == "Division by zero"@,
                _ => value is Error
                    && final(self).diagnostics@.len() == old(self).diagnostics@.len() + 1
                    && final(self).diagnostics@.last()@.message == "Integer overflow"@,
            },
            !is_arithmetic(operator) ==> value == ComptimeValue::Bool(comparison_result(operator, l as int, r as int))
                && final(self).diagnostics == old(self).diagnostics,
    {
        proof {
            reveal_strlit("Division by zero");
            reveal_strlit("Integer overflow");
        }
        if !matches!(operator, BinaryOperator::Add | BinaryOperator::Subtract | BinaryOperator::Multiply | BinaryOperator::Divide) {
            return ComptimeValue::Bool(apply_comparison(operator, l, r));
        }
        match apply_integer_operation(operator, l, r, t, &self.target) {
            IntegerOutcome::Value(v) => ComptimeValue::Integer { value: v, type_: t },
            IntegerOutcome::DivisionByZero => {
                self.report(error_str("Division by zero", expression.span, "the divisor evaluates to zero"));
                ComptimeValue::Error
            },
            IntegerOutcome::Overflow => {
                let text = join(join(String::from_str("this operation overflows `"), t.name()), "`");
                self.report(Diagnostic::error(String::from_str("Integer overflow"), expression.span, text));
                ComptimeValue::Error
            },
            IntegerOutcome::OutOfRange(v) => {
                let text = join(join(join(join(String::from_str("result `"), decimal_text(v).as_str()), "` does not fit in `"), t.name()), "`");
                self.report(Diagnostic::error(String::from_str("Integer overflow"), expression.span, text));
                ComptimeValue::Error
            },
        }
    }

    fn evaluate_call(&mut self, callee: &HirExpression, arguments: &Vec<HirExpression>) -> (value: ComptimeValue)
        requires
            old(self).inv(),
            old(self).refers_within(*callee),
            forall|i: int| 0 <= i < arguments@.len() ==> old(self).refers_within(#[trigger] arguments@[i]),
        ensures
            old(self).evolves(*final(self)),
            callee.data is Bool || callee.data is Integer || callee.data is StringLiteral || callee.data is TypeValue
                || callee.data is Error ==> value is Error,
            callee.data matches HirExpressionData::Symbol(s) && visible_value(old(self).frames@, old(self).values.view_values(), s) is None
                && old(self).symbols.symbols@[s.0 as int].kind is ExternFunction
                ==> value is Error,
            match known_call(*old(self), *callee, arguments@) {
                Some((f, frame)) => old(self).fuel > 1 + nodes_total(arguments@) + function_steps(f) ==>
                    forall|pushed: Vec<(SymbolId, ComptimeValue)>| pushed@ == frame ==>
                        match #[trigger] function_returned_value(f, old(self).frames@.push(pushed), old(self).values.view_values(), old(self).target) {
                            Some(v) => value == v,
                            None => true,
                        },
                None => true,
            },
        decreases old(self).fuel, 1nat,
    {
        let ghost known = known_call(*old(self), *callee, arguments@);
        let ghost kf = match known { Some(k) => k.0, None => arbitrary() };
        let ghost kframe = match known { Some(k) => k.1, None => arbitrary() };
        let ghost plan = known is Some && old(self).fuel > 1 + nodes_total(arguments@) + function_steps(kf);
        let ghost expected_arguments = known_arguments(*old(self), arguments@);
        let callee_value = self.evaluate_expression(callee);
        proof {
            assert forall|j: int| 0 <= j < arguments@.len() implies self.refers_within(#[trigger] arguments@[j]) by {
                old(self).lemma_within_persists(*self, arguments@[j]);
            }
        }
        let ghost after_callee = *self;
        let function_id = match callee_value {
            ComptimeValue::Function(id) => id,
            ComptimeValue::ExternFunction(external) => {
                let message = if (external.0 as usize) < self.symbols.symbols.len() {
                    let name = self.symbols.get(external).name.clone();
                    join(join(String::from_str("runtime external function `"), name.as_str()), "` is unavailable at compile time")
                } else {
                    String::from_str("runtime external functions are unavailable at compile time")
                };
                self.report(Diagnostic::error(String::from_str("Value unavailable at compile time"), callee.span, message));
                return ComptimeValue::Error;
            },
            _ => {
                return ComptimeValue::Error;
            },
        };
        proof {
            if plan {
                assert(arguments_known(*old(self), arguments@));
                assert(arguments@.take(0) =~= Seq::<HirExpression>::empty());
            }
        }
        let mut argument_values: Vec<ComptimeValue> = Vec::new();
        let mut any_error = false;
        let mut i: usize = 0;
        while i < arguments.len()
            invariant
                old(self).evolves(*self),
                self.fuel <= old(self).fuel,
                i <= arguments@.len(),
                forall|j: int| 0 <= j < arguments@.len() ==> self.refers_within(#[trigger] arguments@[j]),
                argument_values@.len() == i,
                plan ==> {
                    &&& self.values == old(self).values
                    &&& self.functions == old(self).functions
                    &&& self.fuel == old(self).fuel - 1 - nodes_total(arguments@.take(i as int))
                    &&& !any_error
                    &&& forall|j: int| 0 <= j < i ==> #[trigger] argument_values@[j] == expected_arguments[j]
                    &&& function_id == called_function(*old(self), *callee)->0
                },
                plan ==> known == known_call(*old(self), *callee, arguments@),
                plan ==> arguments_known(*old(self), arguments@),
                expected_arguments == known_arguments(*old(self), arguments@),
                plan ==> old(self).fuel > 1 + nodes_total(arguments@) + function_steps(kf),
            decreases arguments@.len() - i,
        {
            let ghost before = *self;
            proof {
                if plan {
                    assert(arguments@.take(i + 1).drop_last() =~= arguments@.take(i as int));
                    lemma_nodes_total_prefix(arguments@, i + 1);
                    assert(known_plain(constant_value(arguments@[i as int], old(self).frames@, old(self).values.view_values(), old(self).target)));
                }
            }
            let value = self.evaluate_expression(&arguments[i]);
            proof {
                assert forall|j: int| 0 <= j < arguments@.len() implies self.refers_within(#[trigger] arguments@[j]) by {
                    before.lemma_within_persists(*self, arguments@[j]);
                }
            }
            if value.is_error() {
                any_error = true;
            }
            argument_values.push(value);
            i += 1;
        }
        if any_error {
            return ComptimeValue::Error;
        }
        let (hir, mut frame) = match self.functions.get(function_id) {
            Some(function) => (share(&function.hir), duplicate_frame(&function.captures)),
            None => {
                return ComptimeValue::Error;
            },
        };
        proof {
            if plan {
                assert(arguments@.take(arguments@.len() as int) =~= arguments@);
                assert(frame@ =~= kf.captures@);
                assert(argument_values@ =~= expected_arguments);
            }
        }
        let mut p: usize = 0;
        while p < hir.parameters.len() && p < argument_values.len()
            invariant
                p <= hir.parameters@.len(),
                p <= argument_values@.len(),
                plan ==> argument_values@ == expected_arguments,
                plan ==> forall|j: int| 0 <= j < argument_values@.len() ==> plain_value(#[trigger] argument_values@[j]),
                plan ==> frame@ == bound_frame(kf.captures@, hir.parameters@, argument_values@, p as nat),
            decreases hir.parameters@.len() - p,
        {
            let copy = argument_values[p].duplicate();
            proof {
                if plan {
                    assert(plain_value(argument_values@[p as int]));
                    assert(copy == argument_values@[p as int]);
                }
            }
            frame_set(&mut frame, hir.parameters[p].symbol, copy);
            p += 1;
        }
        let ghost outer = self.frames@;
        let ghost pushed_frame = frame;
        self.frames.push(frame);
        let result = self.evaluate_function_body(&hir);
        proof {
            if plan {
                assert(self.frames@.len() > 0);
                assert forall|pushed: Vec<(SymbolId, ComptimeValue)>| pushed@ == kframe implies
                    match #[trigger] function_returned_value(kf, old(self).frames@.push(pushed), old(self).values.view_values(), old(self).target) {
                        Some(v) => result == v,
                        None => true,
                    } by {
                    lemma_same_frame_same_lookup(outer, pushed_frame, pushed, old(self).values.view_values());
                    let body = function_body(kf);
                    if body.statements@.len() > 0 {
                        if let HirStatementData::Return(Some(e)) = body.statements@[0].data {
                            lemma_constant_value_by_lookup(e, outer.push(pushed_frame), outer.push(pushed), old(self).values.view_values(), old(self).target);
                        }
                    }
                }
            }
        }
        assert(self.frames@.drop_last() =~= outer);
        self.frames.pop();
        result
    }

    fn evaluate_symbol(&mut self, expression: &HirExpression, symbol: SymbolId) -> (value: ComptimeValue)
        requires
            old(self).inv(),
            symbol.0 < old(self).symbols.symbols@.len(),
        ensures
            old(self).evolves(*final(self)),
            match visible_value(old(self).frames@, old(self).values.view_values(), symbol) {
                Some(v) => value_eq(value, v) && *final(self) == *old(self),
                None => unavailable_value(
                    symbol,
                    old(self).symbols.symbols@[symbol.0 as int].kind,
                    value,
                    old(self).diagnostics@.len(),
                    final(self).diagnostics@.len(),
                ),
            },
        decreases old(self).fuel, 1nat,
    {
        match self.lookup_value(symbol) {
            Some(value) => {
                return value;
            },
            None => {},
        }
        let is_pending_comptime_binding = matches!(
            self.symbols.get(symbol).kind,
            SymbolKind::Binding { phase: Phase::Comptime, .. }
        ) && self.pending_bindings.contains_key(&symbol.0);
        if is_pending_comptime_binding {
            return match self.ensure_binding_evaluated(symbol) {
                Ok(value) => value,
                Err(()) => ComptimeValue::Error,
            };
        }
        let symbol_info = self.symbols.get(symbol);
        let name = symbol_info.name.clone();
        let message = match &symbol_info.kind {
            SymbolKind::BuiltinType(t) => {
                return ComptimeValue::Type(t.duplicate());
            },
            SymbolKind::ExternFunction { .. } => {
                return ComptimeValue::ExternFunction(symbol);
            },
            SymbolKind::Binding { phase: Phase::Runtime, .. } => join(join(String::from_str("runtime binding `"), name.as_str()), "` is unavailable at compile time"),
            SymbolKind::Binding { phase: Phase::Comptime, .. } => join(join(String::from_str("compile-time binding `"), name.as_str()), "` has not been evaluated yet"),
            SymbolKind::Parameter => join(join(String::from_str("parameter `"), name.as_str()), "` is unavailable outside a compile-time function call"),
            SymbolKind::ComptimeParameter => join(join(String::from_str("comptime parameter `"), name.as_str()), "` is unavailable outside its specialization"),
            SymbolKind::Local { .. } => join(join(String::from_str("local binding `"), name.as_str()), "` is unavailable outside a compile-time function call"),
        };
        self.report(Diagnostic::error(String::from_str("Value unavailable at compile time"), expression.span, message));
        ComptimeValue::Error
    }

    /// Runs the body of a function whose call frame is in place; a body that
    /// ends without `return` gives the unit value when the function returns
    /// `unit`, and is reported otherwise.
    pub(crate) fn evaluate_function_body(&mut self, function: &HirFunctionExpression) -> (value: ComptimeValue)
        requires
            old(self).inv(),
            old(self).function_within(*function),
            old(self).frames@.len() > 0,
        ensures
            old(self).runs_statements(*final(self)),
            old(self).fuel == 0 ==> value is Error,
            old(self).fuel > 0 && function.body.statements@.len() == 0 ==> if function.return_type is Unit {
                value == ComptimeValue::Unit
            } else {
                value is Error && final(self).diagnostics@.len() == old(self).diagnostics@.len() + 1
            },
            old(self).fuel > 1 && function.body.statements@.len() > 0
                && function.body.statements@[0].data == HirStatementData::Return(None) ==> value == ComptimeValue::Unit,
            match returned_value(*function, old(self).frames@, old(self).values.view_values(), old(self).target) {
                Some(v) => old(self).fuel > body_steps(*function) ==> value == v,
                None => true,
            },
        decreases old(self).fuel, 0nat,
    {
        if !self.tick(function.body.span) {
            return ComptimeValue::Error;
        }
        proof {
            old(self).lemma_block_within_persists(*self, function.body);
        }
        let mut i: usize = 0;
        while i < function.body.statements.len()
            invariant
                old(self).runs_statements(*self),
                old(self).frames@.len() > 0,
                self.fuel < old(self).fuel,
                self.block_within(function.body),
                i == 0 ==> self.fuel == old(self).fuel - 1 && self.diagnostics == old(self).diagnostics
                    && self.frames@ == old(self).frames@ && self.values == old(self).values,
                i <= function.body.statements@.len(),
                i > 0 ==> !(returned_value(*function, old(self).frames@, old(self).values.view_values(), old(self).target) is Some
                    && old(self).fuel > body_steps(*function)),
                i > 0 && old(self).fuel > 1 ==> !(function.body.statements@[0].data is Return),
            decreases function.body.statements@.len() - i,
        {
            let ghost before = *self;
            match self.evaluate_statement(&function.body.statements[i]) {
                EvaluationFlow::Continue => {
                    proof {
                        before.lemma_block_within_persists(*self, function.body);
                    }
                },
                EvaluationFlow::Return(value) => {
                    return value;
                },
                EvaluationFlow::Error => {
                    return ComptimeValue::Error;
                },
            }
            i += 1;
        }
        if matches!(function.return_type, Type::Unit) {
            ComptimeValue::Unit
        } else {
            self.report(error_str("Function is missing a return statement", function.body.span, "no return :("));
            ComptimeValue::Error
        }
    }
}

} // verus!
