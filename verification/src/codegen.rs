//! The decisions of code generation that do not depend on LLVM itself:
//! names, constant bit patterns, comparison predicates and the entry point.

use vstd::prelude::*;
use crate::ast::BinaryOperator;
use crate::comptime::{ComptimeValue, FunctionId};
use crate::elaboration::ElaboratedProgram;
use crate::text::{decimal, decimal_text, join};
use crate::types::{IntegerType, TargetInfo, Type, spec_bit_width, spec_is_signed, spec_maximum, spec_minimum, supported_width};

verus! {

/// The LLVM name of a compile-time function.
pub open spec fn function_name(id: FunctionId) -> Seq<char> {
    "flang_fn_"@ + decimal(id.0 as int)
}

/// The LLVM name of a compile-time function: `flang_fn_` and its index.
pub fn llvm_function_name(function_id: FunctionId) -> (name: String)
    ensures
        name@ == function_name(function_id),
{
    join(String::from_str("flang_fn_"), decimal_text(function_id.index() as i128).as_str())
}

/// The low `width` bits of `value`, as an unsigned number: `value` modulo
/// two to the `width`.
pub open spec fn bit_pattern(value: int, width: nat) -> int {
    value % vstd::arithmetic::power2::pow2(width) as int
}

/// The integer that `bits` of the given width stand for, read as two's
/// complement when `signed`.
pub open spec fn decoded(bits: int, width: nat, signed: bool) -> int {
    if signed && bits >= vstd::arithmetic::power2::pow2((width - 1) as nat) as int {
        bits - vstd::arithmetic::power2::pow2(width) as int
    } else {
        bits
    }
}

/// Values that lie in `[-half, 2 * half)` modulo `2 * half` read back.
proof fn lemma_round_trip(value: int, half: int, signed: bool)
    requires
        half > 0,
        signed ==> -half <= value < half,
        !signed ==> 0 <= value < 2 * half,
    ensures
        (if signed && value % (2 * half) >= half { value % (2 * half) - 2 * half } else { value % (2 * half) }) == value,
{
    let m = 2 * half;
    if value >= 0 {
        vstd::arithmetic::div_mod::lemma_small_mod(value as nat, m as nat);
    } else {
        vstd::arithmetic::div_mod::lemma_small_mod((value + m) as nat, m as nat);
        vstd::arithmetic::div_mod::lemma_mod_add_multiples_vanish(value, m);
    }
}

/// Law: the bits that a literal of an integer type becomes read back, as
/// that type's signedness reads them, as the literal's value.
pub proof fn law_bit_pattern_reads_back(value: int, t: IntegerType, target: TargetInfo)
    requires
        supported_width(target),
        spec_minimum(t, target) <= value <= spec_maximum(t, target),
    ensures
        decoded(bit_pattern(value, spec_bit_width(t, target) as nat), spec_bit_width(t, target) as nat, spec_is_signed(t)) == value,
{
    vstd::arithmetic::power2::lemma2_to64();
    vstd::arithmetic::power2::lemma2_to64_rest();
    let w = spec_bit_width(t, target) as nat;
    let half = vstd::arithmetic::power2::pow2((w - 1) as nat) as int;
    assert(vstd::arithmetic::power2::pow2(w) as int == 2 * half) by {
        if w == 8 {
            assert(half == 0x80);
        } else if w == 16 {
            assert(half == 0x8000);
        } else if w == 32 {
            assert(half == 0x8000_0000);
        } else {
            assert(w == 64);
            assert(half == 0x8000_0000_0000_0000);
        }
    }
    assert(spec_minimum(t, target) == if spec_is_signed(t) { -half } else { 0 });
    assert(spec_maximum(t, target) == if spec_is_signed(t) { half - 1 } else { 2 * half - 1 });
    lemma_round_trip(value, half, spec_is_signed(t));
}

/// The bits of `value` in an integer of the given type, as LLVM's
/// `const_int` takes them: two's complement, truncated to the type's width.
pub fn integer_bit_pattern(value: i128, integer_type: IntegerType, target: &TargetInfo) -> (bits: u64)
    requires
        supported_width(*target),
    ensures
        bits as int == bit_pattern(value as int, spec_bit_width(integer_type, *target) as nat),
{
    let width = integer_type.bit_width(target);
    let low: u64 = value as u64;
    proof {
        vstd::arithmetic::power2::lemma2_to64();
        vstd::arithmetic::power2::lemma2_to64_rest();
        assert(low as int == (value as int) % 0x1_0000_0000_0000_0000) by (bit_vector)
            requires low == value as u64;
    }
    if width == 64 {
        low
    } else if width == 32 {
        let bits = low & 0xffff_ffff;
        proof {
            assert(bits == low % 0x1_0000_0000) by (bit_vector)
                requires bits == low & 0xffff_ffff;
            assert((value as int) % 0x1_0000_0000 == ((value as int) % 0x1_0000_0000_0000_0000) % 0x1_0000_0000) by (nonlinear_arith);
        }
        bits
    } else if width == 16 {
        let bits = low & 0xffff;
        proof {
            assert(bits == low % 0x1_0000) by (bit_vector)
                requires bits == low & 0xffff;
            assert((value as int) % 0x1_0000 == ((value as int) % 0x1_0000_0000_0000_0000) % 0x1_0000) by (nonlinear_arith);
        }
        bits
    } else {
        let bits = low & 0xff;
        proof {
            assert(bits == low % 0x100) by (bit_vector)
                requires bits == low & 0xff;
            assert((value as int) % 0x100 == ((value as int) % 0x1_0000_0000_0000_0000) % 0x100) by (nonlinear_arith);
        }
        bits
    }
}

/// The predicates with which LLVM compares integers.
#[derive(Debug, Clone, Copy, PartialEq, Eq, Structural)]
pub enum ComparisonPredicate {
    Equal,
    NotEqual,
    SignedLess,
    SignedLessOrEqual,
    SignedGreater,
    SignedGreaterOrEqual,
    UnsignedLess,
    UnsignedLessOrEqual,
    UnsignedGreater,
    UnsignedGreaterOrEqual,
}

/// The predicate of a comparison operator on signed or unsigned operands.
pub open spec fn predicate_of(operator: BinaryOperator, signed: bool) -> Option<ComparisonPredicate> {
    match operator {
        BinaryOperator::Equal => Some(ComparisonPredicate::Equal),
        BinaryOperator::NotEqual => Some(ComparisonPredicate::NotEqual),
        BinaryOperator::LessThan => Some(if signed { ComparisonPredicate::SignedLess } else { ComparisonPredicate::UnsignedLess }),
        BinaryOperator::LessThanOrEqual => Some(if signed { ComparisonPredicate::SignedLessOrEqual } else { ComparisonPredicate::UnsignedLessOrEqual }),
        BinaryOperator::GreaterThan => Some(if signed { ComparisonPredicate::SignedGreater } else { ComparisonPredicate::UnsignedGreater }),
        BinaryOperator::GreaterThanOrEqual => Some(if signed { ComparisonPredicate::SignedGreaterOrEqual } else { ComparisonPredicate::UnsignedGreaterOrEqual }),
        _ => None,
    }
}

/// The predicate of a comparison operator; `None` for an arithmetic operator.
pub fn comparison_predicate(operator: BinaryOperator, signed: bool) -> (predicate: Option<ComparisonPredicate>)
    ensures
        predicate == predicate_of(operator, signed),
{
    match operator {
        BinaryOperator::Equal => Some(ComparisonPredicate::Equal),
        BinaryOperator::NotEqual => Some(ComparisonPredicate::NotEqual),
        BinaryOperator::LessThan => Some(if signed { ComparisonPredicate::SignedLess } else { ComparisonPredicate::UnsignedLess }),
        BinaryOperator::LessThanOrEqual => Some(if signed { ComparisonPredicate::SignedLessOrEqual } else { ComparisonPredicate::UnsignedLessOrEqual }),
        BinaryOperator::GreaterThan => Some(if signed { ComparisonPredicate::SignedGreater } else { ComparisonPredicate::UnsignedGreater }),
        BinaryOperator::GreaterThanOrEqual => Some(if signed { ComparisonPredicate::SignedGreaterOrEqual } else { ComparisonPredicate::UnsignedGreaterOrEqual }),
        _ => None,
    }
}

/// The width of the LLVM integer that holds a value of `type_`: the integer
/// type's width, one bit for a boolean; `None` for a type without one.
pub open spec fn value_width(type_: Type, target: TargetInfo) -> Option<u32> {
    match type_ {
        Type::Integer(t) => Some(spec_bit_width(t, target)),
        Type::Bool => Some(1),
        _ => None,
    }
}

/// The width of the LLVM integer that holds a value of `type_`.
pub fn llvm_value_width(type_: &Type, target: &TargetInfo) -> (width: Option<u32>)
    ensures
        width == value_width(*type_, *target),
{
    match type_ {
        Type::Integer(t) => Some(t.bit_width(target)),
        Type::Bool => Some(1),
        _ => None,
    }
}

/// Why a program has no entry point to call from the executable's `main`.
#[derive(Debug, Clone, Copy, PartialEq, Eq, Structural)]
pub enum EntryError {
    NoMain,
    NotAFunction,
    MissingFunction,
    TakesParameters,
    WrongReturnType,
}

impl EntryError {
    /// What the error says.
    pub fn message(self) -> (message: &'static str)
        ensures
            message@ == match self {
                EntryError::NoMain => "entry module does not define `main`"@,
                EntryError::NotAFunction => "`main` must be a compile-time-known function"@,
                EntryError::MissingFunction => "internal error: main FunctionId is missing"@,
                EntryError::TakesParameters => "`main` must not take parameters"@,
                EntryError::WrongReturnType => "`main` must return i64"@,
            },
    {
        match self {
            EntryError::NoMain => "entry module does not define `main`",
            EntryError::NotAFunction => "`main` must be a compile-time-known function",
            EntryError::MissingFunction => "internal error: main FunctionId is missing",
            EntryError::TakesParameters => "`main` must not take parameters",
            EntryError::WrongReturnType => "`main` must return i64",
        }
    }
}

/// `id` is the function that the entry module's `main` holds at compile
/// time, and it takes no parameters and returns `i64`.
pub open spec fn is_entry(program: &ElaboratedProgram, id: FunctionId) -> bool {
    &&& program.entry_symbol is Some
    &&& program.values.view_values().contains_key((program.entry_symbol->0).0)
    &&& program.values.view_values()[(program.entry_symbol->0).0] == ComptimeValue::Function(id)
    &&& id.0 < program.functions.view_functions().len()
    &&& program.functions.view_functions()[id.0 as int].hir.parameters@.len() == 0
    &&& program.functions.view_functions()[id.0 as int].hir.return_type == Type::Integer(IntegerType::I64)
}

/// The compile-time function that the executable's `main` calls: the value
/// of the entry module's `main`, which takes no parameters and returns `i64`.
pub fn entry_function(program: &ElaboratedProgram) -> (result: Result<FunctionId, EntryError>)
    ensures
        program.entry_symbol is None ==> result == Err::<FunctionId, EntryError>(EntryError::NoMain),
        result matches Ok(id) ==> is_entry(program, id),
        result is Err ==> forall|id: FunctionId| !is_entry(program, id),
{
    let main_symbol = match program.entry_symbol {
        Some(symbol) => symbol,
        None => {
            return Err(EntryError::NoMain);
        },
    };
    let function_id = match program.values.get(main_symbol) {
        Some(ComptimeValue::Function(function_id)) => *function_id,
        _ => {
            return Err(EntryError::NotAFunction);
        },
    };
    let function = match program.functions.get(function_id) {
        Some(function) => function,
        None => {
            return Err(EntryError::MissingFunction);
        },
    };
    if function.hir.parameters.len() != 0 {
        return Err(EntryError::TakesParameters);
    }
    match function.hir.return_type {
        Type::Integer(IntegerType::I64) => Ok(function_id),
        _ => Err(EntryError::WrongReturnType),
    }
}

/// The byte that `flang_print_ascii` writes for `value`: `value` modulo 256.
pub fn ascii_byte(value: i64) -> (byte: u8)
    ensures
        byte as int == (value as int) % 256,
{
    let low: u64 = value as u64;
    let bits = low & 0xff;
    proof {
        assert(low as int == (value as int) % 0x1_0000_0000_0000_0000) by (bit_vector)
            requires low == value as u64;
        assert(bits == low % 0x100) by (bit_vector)
            requires bits == low & 0xff;
        assert((value as int) % 0x100 == ((value as int) % 0x1_0000_0000_0000_0000) % 0x100) by (nonlinear_arith);
    }
    bits as u8
}

} // verus!
