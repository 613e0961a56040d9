use flang::ast::BinaryOperator;
use flang::codegen::{ascii_byte, comparison_predicate, integer_bit_pattern, llvm_function_name, llvm_value_width, ComparisonPredicate};
use flang::comptime::{ComptimeValue, FunctionId, FunctionTemplateId};
use flang::symbols::{ModuleId, SymbolId};
use flang::elaboration::analysis::{read_integer_literal, LiteralError};
use flang::elaboration::evaluation::{apply_comparison, apply_integer_operation, checked_negation, IntegerOutcome};
use flang::source::{SourceFile, SourceId};
use flang::text::{decimal_text, join, type_debug_text, value_debug_text};
use flang::types::{IntegerType, TargetInfo, Type};

fn chars(text: &str) -> Vec<char> {
    text.chars().collect()
}

#[test]
fn decimal_text_writes_signed_decimals() {
    assert_eq!(decimal_text(0), "0");
    assert_eq!(decimal_text(42), "42");
    assert_eq!(decimal_text(-7), "-7");
    assert_eq!(decimal_text(i128::MAX), i128::MAX.to_string());
    assert_eq!(decimal_text(i128::MIN), i128::MIN.to_string());
    assert_eq!(join("a".to_owned(), "b"), "ab");
}

#[test]
fn function_names_carry_the_function_index() {
    assert_eq!(llvm_function_name(FunctionId(0)), "flang_fn_0");
    assert_eq!(llvm_function_name(FunctionId(17)), "flang_fn_17");
}

#[test]
fn bit_patterns_are_twos_complement_truncated_to_the_width() {
    let target = TargetInfo { pointer_bit_width: 64 };
    assert_eq!(integer_bit_pattern(-1, IntegerType::I8, &target), 0xff);
    assert_eq!(integer_bit_pattern(300, IntegerType::U8, &target), 44);
    assert_eq!(integer_bit_pattern(-2, IntegerType::I16, &target), 0xfffe);
    assert_eq!(integer_bit_pattern(-1, IntegerType::I32, &target), 0xffff_ffff);
    assert_eq!(integer_bit_pattern(-1, IntegerType::I64, &target), u64::MAX);
    assert_eq!(integer_bit_pattern(6, IntegerType::I64, &target), 6);
    assert_eq!(integer_bit_pattern(-1, IntegerType::Isize, &target), u64::MAX);
    let narrow = TargetInfo { pointer_bit_width: 32 };
    assert_eq!(integer_bit_pattern(-1, IntegerType::Isize, &narrow), 0xffff_ffff);
}

#[test]
fn ascii_bytes_wrap_modulo_256() {
    assert_eq!(ascii_byte(65), 65);
    assert_eq!(ascii_byte(321), 65);
    assert_eq!(ascii_byte(-1), 255);
    assert_eq!(ascii_byte(-256), 0);
}

#[test]
fn comparisons_choose_signed_or_unsigned_predicates() {
    assert_eq!(comparison_predicate(BinaryOperator::LessThan, true), Some(ComparisonPredicate::SignedLess));
    assert_eq!(comparison_predicate(BinaryOperator::LessThan, false), Some(ComparisonPredicate::UnsignedLess));
    assert_eq!(comparison_predicate(BinaryOperator::Equal, false), Some(ComparisonPredicate::Equal));
    assert_eq!(comparison_predicate(BinaryOperator::GreaterThanOrEqual, true), Some(ComparisonPredicate::SignedGreaterOrEqual));
    assert_eq!(comparison_predicate(BinaryOperator::Add, true), None);
}

#[test]
fn value_widths_follow_the_types() {
    let target = TargetInfo { pointer_bit_width: 64 };
    assert_eq!(llvm_value_width(&Type::Integer(IntegerType::I32), &target), Some(32));
    assert_eq!(llvm_value_width(&Type::Integer(IntegerType::Usize), &target), Some(64));
    assert_eq!(llvm_value_width(&Type::Bool, &target), Some(1));
    assert_eq!(llvm_value_width(&Type::Unit, &target), None);
}

#[test]
fn integer_ranges_match_the_widths() {
    let target = TargetInfo { pointer_bit_width: 64 };
    assert_eq!(IntegerType::I8.minimum_value(&target), -128);
    assert_eq!(IntegerType::I8.maximum_value(&target), 127);
    assert_eq!(IntegerType::U16.maximum_value(&target), 65535);
    assert_eq!(IntegerType::I64.minimum_value(&target), i64::MIN as i128);
    assert_eq!(IntegerType::Usize.maximum_value(&target), u64::MAX as i128);
    assert_eq!(IntegerType::Isize.maximum_value(&TargetInfo { pointer_bit_width: 32 }), i32::MAX as i128);
    assert!(IntegerType::U8.contains(255, &target));
    assert!(!IntegerType::U8.contains(256, &target));
    assert!(!IntegerType::U32.contains(-1, &target));
    assert_eq!(IntegerType::Isize.bit_width(&target), 64);
    assert_eq!(IntegerType::U16.name(), "u16");
    assert!(IntegerType::I32.is_signed());
    assert!(!IntegerType::Usize.is_signed());
}

#[test]
fn compile_time_arithmetic_is_exact_or_reported() {
    let target = TargetInfo::native();
    assert_eq!(apply_integer_operation(BinaryOperator::Add, 40, 2, IntegerType::I64, &target), IntegerOutcome::Value(42));
    assert_eq!(apply_integer_operation(BinaryOperator::Subtract, 8, 3, IntegerType::I64, &target), IntegerOutcome::Value(5));
    assert_eq!(apply_integer_operation(BinaryOperator::Multiply, -3, 4, IntegerType::I32, &target), IntegerOutcome::Value(-12));
    assert_eq!(apply_integer_operation(BinaryOperator::Divide, -7, 2, IntegerType::I64, &target), IntegerOutcome::Value(-3));
    assert_eq!(apply_integer_operation(BinaryOperator::Divide, 5, 0, IntegerType::I64, &target), IntegerOutcome::DivisionByZero);
    assert_eq!(
        apply_integer_operation(BinaryOperator::Add, 9223372036854775806, 2, IntegerType::I64, &target),
        IntegerOutcome::OutOfRange(9223372036854775808)
    );
    assert_eq!(apply_integer_operation(BinaryOperator::Add, i128::MAX, 1, IntegerType::I64, &target), IntegerOutcome::Overflow);
    assert_eq!(apply_integer_operation(BinaryOperator::Subtract, 0, 1, IntegerType::U8, &target), IntegerOutcome::OutOfRange(-1));
    assert!(apply_comparison(BinaryOperator::LessThanOrEqual, 3, 3));
    assert!(!apply_comparison(BinaryOperator::NotEqual, 3, 3));
    assert_eq!(checked_negation(5), Some(-5));
    assert_eq!(checked_negation(i128::MIN), None);
}

#[test]
fn integer_literals_read_digits_then_a_suffix() {
    let literal = read_integer_literal(&chars("42")).expect("plain literal");
    assert_eq!(literal.magnitude, 42);
    assert_eq!(literal.suffix, None);
    let literal = read_integer_literal(&chars("4usize")).expect("suffixed literal");
    assert_eq!(literal.magnitude, 4);
    assert_eq!(literal.suffix, Some(IntegerType::Usize));
    let literal = read_integer_literal(&chars("18446744073709551615u64")).expect("largest literal");
    assert_eq!(literal.magnitude, u64::MAX);
    assert_eq!(read_integer_literal(&chars("18446744073709551616")), Err(LiteralError::TooLarge));
    assert_eq!(read_integer_literal(&chars("5q")), Err(LiteralError::UnknownSuffix));
    assert_eq!(read_integer_literal(&chars("")), Err(LiteralError::TooLarge));
}

#[test]
fn source_files_keep_their_text() {
    let file = SourceFile::new(SourceId(3), "main.fl".to_owned(), "comp x = 1;".to_owned());
    assert_eq!(file.text(), "comp x = 1;");
    assert_eq!(file.len(), 11);
    assert_eq!(file.id(), SourceId(3));
    assert_eq!(file.name(), "main.fl");
    let span = file.span(5, 6);
    assert_eq!(file.span_text(span), "x");
}

#[test]
fn types_compare_and_copy_structurally() {
    let function = Type::Function {
        parameters: vec![Type::Integer(IntegerType::I32), Type::Bool],
        return_type: Box::new(Type::FixedArray { size: 4, base_type: Box::new(Type::Integer(IntegerType::U8)) }),
    };
    let copy = function.duplicate();
    assert!(copy.same_as(&function));
    assert!(!copy.same_as(&Type::Unit));
    assert!(Type::Integer(IntegerType::I64).is_integer());
    assert_eq!(Type::Integer(IntegerType::I64).as_integer(), Some(IntegerType::I64));
    assert_eq!(Type::Bool.as_integer(), None);
}

#[test]
fn type_text_is_what_debug_writes() {
    let types = vec![
        Type::Integer(IntegerType::I64),
        Type::Integer(IntegerType::Usize),
        Type::Module(ModuleId(3)),
        Type::Bool,
        Type::Str,
        Type::Unit,
        Type::FixedArray { size: 4, base_type: Box::new(Type::Integer(IntegerType::U8)) },
        Type::Function { parameters: vec![], return_type: Box::new(Type::Unit) },
        Type::Function {
            parameters: vec![Type::Integer(IntegerType::I32), Type::Bool, Type::FixedArray { size: 2, base_type: Box::new(Type::Bool) }],
            return_type: Box::new(Type::Integer(IntegerType::I64)),
        },
        Type::FunctionTemplate(FunctionTemplateId(7)),
        Type::Error,
        Type::Unknown,
        Type::Type,
    ];
    for t in &types {
        assert_eq!(type_debug_text(t), format!("{:?}", t));
    }
}

#[test]
fn value_text_is_what_debug_writes() {
    let values = vec![
        ComptimeValue::Integer { value: -42, type_: IntegerType::I32 },
        ComptimeValue::Integer { value: i128::MIN, type_: IntegerType::I64 },
        ComptimeValue::ExternFunction(SymbolId(5)),
        ComptimeValue::Function(FunctionId(0)),
        ComptimeValue::FunctionTemplate(FunctionTemplateId(12)),
        ComptimeValue::Type(Type::Function { parameters: vec![Type::Bool], return_type: Box::new(Type::Unit) }),
        ComptimeValue::Bool(true),
        ComptimeValue::Bool(false),
        ComptimeValue::String("plain text".to_owned()),
        ComptimeValue::String("tab\tline\nquote\"back\\slash\0nul\u{1b}esc\u{7f}del é".to_owned()),
        ComptimeValue::String(String::new()),
        ComptimeValue::Unit,
        ComptimeValue::Error,
    ];
    for v in &values {
        assert_eq!(value_debug_text(v), format!("{:?}", v));
    }
}
