//! Building the text of diagnostics.

use vstd::prelude::*;
use crate::ast::BinaryOperator;
use crate::comptime::ComptimeValue;
use crate::types::{IntegerType, Type};

verus! {

/// The decimal digits of a natural number, most significant first.
pub open spec fn digits(n: nat) -> Seq<char>
    decreases n,
{
    if n < 10 {
        seq![digit_char(n)]
    } else {
        digits(n / 10).push(digit_char(n % 10))
    }
}

/// The character of a decimal digit.
pub open spec fn digit_char(d: nat) -> char {
    if d == 0 { '0' }
    else if d == 1 { '1' }
    else if d == 2 { '2' }
    else if d == 3 { '3' }
    else if d == 4 { '4' }
    else if d == 5 { '5' }
    else if d == 6 { '6' }
    else if d == 7 { '7' }
    else if d == 8 { '8' }
    else { '9' }
}

/// How an integer is written in decimal: a minus sign before negative numbers.
pub open spec fn decimal(n: int) -> Seq<char> {
    if n < 0 {
        seq!['-'] + digits((-n) as nat)
    } else {
        digits(n as nat)
    }
}

fn digit_of(d: u128) -> (c: char)
    requires
        d < 10,
    ensures
        c == digit_char(d as nat),
{
    if d == 0 { '0' }
    else if d == 1 { '1' }
    else if d == 2 { '2' }
    else if d == 3 { '3' }
    else if d == 4 { '4' }
    else if d == 5 { '5' }
    else if d == 6 { '6' }
    else if d == 7 { '7' }
    else if d == 8 { '8' }
    else { '9' }
}

/// The decimal digits of `n`.
fn digits_text(n: u128) -> (text: Vec<char>)
    ensures
        text@ == digits(n as nat),
    decreases n,
{
    if n < 10 {
        let mut text: Vec<char> = Vec::new();
        text.push(digit_of(n));
        assert(text@ =~= digits(n as nat));
        text
    } else {
        let mut text = digits_text(n / 10);
        text.push(digit_of(n % 10));
        text
    }
}

/// The decimal text of `value`.
pub fn decimal_text(value: i128) -> (text: String)
    ensures
        text@ == decimal(value as int),
{
    if value < 0 {
        let magnitude: u128 = if value == i128::MIN {
            0x8000_0000_0000_0000_0000_0000_0000_0000u128
        } else {
            (-value) as u128
        };
        let chars = digits_text(magnitude);
        let mut text = String::from_str("-");
        let rest = crate::source::string_from_chars(chars.as_slice());
        text.append(rest.as_str());
        proof {
            reveal_strlit("-");
        }
        text
    } else {
        let chars = digits_text(value as u128);
        crate::source::string_from_chars(chars.as_slice())
    }
}

/// The text `a` followed by `b`.
pub fn join(a: String, b: &str) -> (text: String)
    ensures
        text@ == a@ + b@,
{
    let mut text = a;
    text.append(b);
    text
}

/// The name of an integer type's variant, as `Debug` writes it.
pub open spec fn integer_variant(t: IntegerType) -> Seq<char> {
    match t {
        IntegerType::U8 => "U8"@,
        IntegerType::I8 => "I8"@,
        IntegerType::U16 => "U16"@,
        IntegerType::I16 => "I16"@,
        IntegerType::U32 => "U32"@,
        IntegerType::I32 => "I32"@,
        IntegerType::U64 => "U64"@,
        IntegerType::I64 => "I64"@,
        IntegerType::Usize => "Usize"@,
        IntegerType::Isize => "Isize"@,
    }
}

/// The name of an integer type's variant.
pub fn integer_variant_text(t: IntegerType) -> (text: &'static str)
    ensures
        text@ == integer_variant(t),
{
    match t {
        IntegerType::U8 => "U8",
        IntegerType::I8 => "I8",
        IntegerType::U16 => "U16",
        IntegerType::I16 => "I16",
        IntegerType::U32 => "U32",
        IntegerType::I32 => "I32",
        IntegerType::U64 => "U64",
        IntegerType::I64 => "I64",
        IntegerType::Usize => "Usize",
        IntegerType::Isize => "Isize",
    }
}

/// How a type is written in messages, as its derived `Debug` writes it:
/// variants by name, fields named in braces, and lists in brackets with
/// ", " between items. With `list` of `Some(n)`, the first `n` parameters of
/// a function type, each followed by ", " but the last.
pub open spec fn type_text(t: Type, list: Option<nat>) -> Seq<char>
    decreases t, (if list is None { 1int } else { 0int }), (match list { Some(n) => n as int, None => 0int }),
{
    match list {
        Some(n) => match t {
            Type::Function { parameters, .. } => if n == 0 || n > parameters@.len() {
                Seq::empty()
            } else if n == 1 {
                type_text(parameters@[0], None)
            } else {
                type_text(t, Some((n - 1) as nat)) + ", "@ + type_text(parameters@[n - 1], None)
            },
            _ => Seq::empty(),
        },
        None => match t {
            Type::Integer(i) => "Integer("@ + integer_variant(i) + ")"@,
            Type::Module(m) => "Module(ModuleId("@ + decimal(m.0 as int) + "))"@,
            Type::Bool => "Bool"@,
            Type::Str => "Str"@,
            Type::Unit => "Unit"@,
            Type::FixedArray { size, base_type } =>
                "FixedArray { size: "@ + decimal(size as int) + ", base_type: "@ + type_text(*base_type, None) + " }"@,
            Type::Function { parameters, return_type } =>
                "Function { parameters: ["@ + type_text(t, Some(parameters@.len())) + "], return_type: "@
                    + type_text(*return_type, None) + " }"@,
            Type::FunctionTemplate(id) => "FunctionTemplate(FunctionTemplateId("@ + decimal(id.0 as int) + "))"@,
            Type::Error => "Error"@,
            Type::Unknown => "Unknown"@,
            Type::Type => "Type"@,
        },
    }
}

/// The text that the derived `Debug` of [`Type`] writes for a type.
pub open spec fn type_debug(t: Type) -> Seq<char> {
    type_text(t, None)
}

/// The text `a` followed by the text `b`.
fn concat(a: String, b: String) -> (text: String)
    ensures
        text@ == a@ + b@,
{
    join(a, b.as_str())
}

/// Writes a type as its derived `Debug` does, as the messages about types show it.
pub fn type_debug_text(t: &Type) -> (text: String)
    ensures
        text@ == type_debug(*t),
    decreases t,
{
    proof {
        reveal_strlit("Integer(");
        reveal_strlit(")");
        reveal_strlit("Module(ModuleId(");
        reveal_strlit("))");
        reveal_strlit("Bool");
        reveal_strlit("Str");
        reveal_strlit("Unit");
        reveal_strlit("FixedArray { size: ");
        reveal_strlit(", base_type: ");
        reveal_strlit(" }");
        reveal_strlit("Function { parameters: [");
        reveal_strlit("], return_type: ");
        reveal_strlit(", ");
        reveal_strlit("FunctionTemplate(FunctionTemplateId(");
        reveal_strlit("Error");
        reveal_strlit("Unknown");
        reveal_strlit("Type");
    }
    match t {
        Type::Integer(i) => join(join(String::from_str("Integer("), integer_variant_text(*i)), ")"),
        Type::Module(m) => join(concat(String::from_str("Module(ModuleId("), decimal_text(m.0 as i128)), "))"),
        Type::Bool => String::from_str("Bool"),
        Type::Str => String::from_str("Str"),
        Type::Unit => String::from_str("Unit"),
        Type::FixedArray { size, base_type } => {
            let head = join(concat(String::from_str("FixedArray { size: "), decimal_text(*size as i128)), ", base_type: ");
            join(concat(head, type_debug_text(base_type)), " }")
        },
        Type::Function { parameters, return_type } => {
            let mut text = String::from_str("Function { parameters: [");
            let ghost start = text@;
            let mut i: usize = 0;
            while i < parameters.len()
                invariant
                    i <= parameters@.len(),
                    text@ == start + type_text(*t, Some(i as nat)),
                    start == "Function { parameters: ["@,
                    *t == (Type::Function { parameters: *parameters, return_type: *return_type }),
                decreases parameters@.len() - i,
            {
                proof {
                    assert(decreases_to!(*t => *parameters));
                    assert(decreases_to!(*parameters => parameters@));
                    assert(decreases_to!(parameters@ => parameters@[i as int]));
                }
                let item = type_debug_text(&parameters[i]);
                if i == 0 {
                    text = concat(text, item);
                } else {
                    text = concat(join(text, ", "), item);
                }
                proof {
                    assert(text@ =~= start + type_text(*t, Some((i + 1) as nat)));
                }
                i += 1;
            }
            let text = join(text, "], return_type: ");
            join(concat(text, type_debug_text(return_type)), " }")
        },
        Type::FunctionTemplate(id) => join(concat(String::from_str("FunctionTemplate(FunctionTemplateId("), decimal_text(id.0 as i128)), "))"),
        Type::Error => String::from_str("Error"),
        Type::Unknown => String::from_str("Unknown"),
        Type::Type => String::from_str("Type"),
    }
}

/// The lower-case hexadecimal digits of a natural number.
pub open spec fn hex_digits(n: nat) -> Seq<char>
    decreases n,
{
    if n < 16 {
        seq![hex_char(n)]
    } else {
        hex_digits(n / 16).push(hex_char(n % 16))
    }
}

/// The lower-case character of a hexadecimal digit.
pub open spec fn hex_char(d: nat) -> char {
    if d < 10 { digit_char(d) }
    else if d == 10 { 'a' }
    else if d == 11 { 'b' }
    else if d == 12 { 'c' }
    else if d == 13 { 'd' }
    else if d == 14 { 'e' }
    else { 'f' }
}

fn hex_digit_of(d: u32) -> (c: char)
    requires
        d < 16,
    ensures
        c == hex_char(d as nat),
{
    if d < 10 {
        digit_of(d as u128)
    } else if d == 10 { 'a' }
    else if d == 11 { 'b' }
    else if d == 12 { 'c' }
    else if d == 13 { 'd' }
    else if d == 14 { 'e' }
    else { 'f' }
}

/// The hexadecimal digits of `n`.
fn hex_text(n: u32) -> (text: Vec<char>)
    ensures
        text@ == hex_digits(n as nat),
    decreases n,
{
    if n < 16 {
        let mut text: Vec<char> = Vec::new();
        text.push(hex_digit_of(n));
        assert(text@ =~= hex_digits(n as nat));
        text
    } else {
        let mut text = hex_text(n / 16);
        text.push(hex_digit_of(n % 16));
        text
    }
}

/// How `Debug` writes a character inside a string literal: the escapes
/// `\t`, `\r`, `\n`, `\\`, `\"` and `\0`, other control characters as
/// `\u{..}` in hexadecimal, and every other character as itself.
pub open spec fn escaped_char(c: char) -> Seq<char> {
    if c == '\t' { seq!['\\', 't'] }
    else if c == '\r' { seq!['\\', 'r'] }
    else if c == '\n' { seq!['\\', 'n'] }
    else if c == '\\' { seq!['\\', '\\'] }
    else if c == '"' { seq!['\\', '"'] }
    else if c == '\0' { seq!['\\', '0'] }
    else if (c as u32) < 0x20 || c as u32 == 0x7f { seq!['\\', 'u', '{'] + hex_digits(c as u32 as nat) + seq!['}'] }
    else { seq![c] }
}

/// The escaped characters of `s`, in order.
pub open spec fn escaped(s: Seq<char>) -> Seq<char>
    decreases s.len(),
{
    if s.len() == 0 { Seq::empty() } else { escaped(s.drop_last()) + escaped_char(s.last()) }
}

/// The characters of `c`, escaped.
fn escape_char(c: char) -> (text: Vec<char>)
    ensures
        text@ == escaped_char(c),
{
    let mut text: Vec<char> = Vec::new();
    if c == '\t' || c == '\r' || c == '\n' || c == '\\' || c == '"' || c == '\0' {
        text.push('\\');
        text.push(if c == '\t' { 't' } else if c == '\r' { 'r' } else if c == '\n' { 'n' } else if c == '\0' { '0' } else { c });
    } else if (c as u32) < 0x20 || c as u32 == 0x7f {
        text.push('\\');
        text.push('u');
        text.push('{');
        let mut digits = hex_text(c as u32);
        text.append(&mut digits);
        text.push('}');
    } else {
        text.push(c);
    }
    assert(text@ =~= escaped_char(c));
    text
}

/// How a value is written in messages, as its derived `Debug` writes it; a
/// string is quoted, with its characters escaped.
pub open spec fn value_debug(v: ComptimeValue) -> Seq<char> {
    match v {
        ComptimeValue::Integer { value, type_ } =>
            "Integer { value: "@ + decimal(value as int) + ", type_: "@ + integer_variant(type_) + " }"@,
        ComptimeValue::ExternFunction(s) => "ExternFunction(SymbolId("@ + decimal(s.0 as int) + "))"@,
        ComptimeValue::Function(f) => "Function(FunctionId("@ + decimal(f.0 as int) + "))"@,
        ComptimeValue::FunctionTemplate(t) => "FunctionTemplate(FunctionTemplateId("@ + decimal(t.0 as int) + "))"@,
        ComptimeValue::Type(t) => "Type("@ + type_debug(t) + ")"@,
        ComptimeValue::Bool(b) => if b { "Bool(true)"@ } else { "Bool(false)"@ },
        ComptimeValue::String(s) => "String(\""@ + escaped(s@) + "\")"@,
        ComptimeValue::Unit => "Unit"@,
        ComptimeValue::Error => "Error"@,
    }
}

/// Writes a compile-time value as its derived `Debug` does.
pub fn value_debug_text(v: &ComptimeValue) -> (text: String)
    ensures
        text@ == value_debug(*v),
{
    proof {
        reveal_strlit("Integer { value: ");
        reveal_strlit(", type_: ");
        reveal_strlit(" }");
        reveal_strlit("ExternFunction(SymbolId(");
        reveal_strlit("))");
        reveal_strlit("Function(FunctionId(");
        reveal_strlit("FunctionTemplate(FunctionTemplateId(");
        reveal_strlit("Type(");
        reveal_strlit(")");
        reveal_strlit("Bool(true)");
        reveal_strlit("Bool(false)");
        reveal_strlit("String(\"");
        reveal_strlit("\")");
        reveal_strlit("Unit");
        reveal_strlit("Error");
    }
    match v {
        ComptimeValue::Integer { value, type_ } => {
            let head = join(concat(String::from_str("Integer { value: "), decimal_text(*value)), ", type_: ");
            join(join(head, integer_variant_text(*type_)), " }")
        },
        ComptimeValue::ExternFunction(s) => join(concat(String::from_str("ExternFunction(SymbolId("), decimal_text(s.0 as i128)), "))"),
        ComptimeValue::Function(f) => join(concat(String::from_str("Function(FunctionId("), decimal_text(f.0 as i128)), "))"),
        ComptimeValue::FunctionTemplate(t) => join(concat(String::from_str("FunctionTemplate(FunctionTemplateId("), decimal_text(t.0 as i128)), "))"),
        ComptimeValue::Type(t) => join(concat(String::from_str("Type("), type_debug_text(t)), ")"),
        ComptimeValue::Bool(b) => if *b { String::from_str("Bool(true)") } else { String::from_str("Bool(false)") },
        ComptimeValue::String(s) => {
            let chars = crate::source::chars_of(s.as_str());
            let mut out: Vec<char> = Vec::new();
            let mut i: usize = 0;
            while i < chars.len()
                invariant
                    i <= chars@.len(),
                    out@ == escaped(chars@.take(i as int)),
                decreases chars@.len() - i,
            {
                let mut piece = escape_char(chars[i]);
                out.append(&mut piece);
                proof {
                    assert(chars@.take(i + 1).drop_last() =~= chars@.take(i as int));
                    assert(chars@.take(i + 1).last() == chars@[i as int]);
                }
                i += 1;
            }
            assert(chars@.take(chars@.len() as int) =~= chars@);
            let body = crate::source::string_from_chars(out.as_slice());
            join(concat(String::from_str("String(\""), body), "\")")
        },
        ComptimeValue::Unit => String::from_str("Unit"),
        ComptimeValue::Error => String::from_str("Error"),
    }
}

/// How an operator is named in messages: the name of its variant.
pub open spec fn operator_name(operator: BinaryOperator) -> Seq<char> {
    match operator {
        BinaryOperator::Add => "Add"@,
        BinaryOperator::Subtract => "Subtract"@,
        BinaryOperator::Multiply => "Multiply"@,
        BinaryOperator::Divide => "Divide"@,
        BinaryOperator::Equal => "Equal"@,
        BinaryOperator::NotEqual => "NotEqual"@,
        BinaryOperator::LessThan => "LessThan"@,
        BinaryOperator::LessThanOrEqual => "LessThanOrEqual"@,
        BinaryOperator::GreaterThan => "GreaterThan"@,
        BinaryOperator::GreaterThanOrEqual => "GreaterThanOrEqual"@,
    }
}

/// The name of an operator's variant.
pub fn operator_text(operator: BinaryOperator) -> (text: &'static str)
    ensures
        text@ == operator_name(operator),
{
    match operator {
        BinaryOperator::Add => "Add",
        BinaryOperator::Subtract => "Subtract",
        BinaryOperator::Multiply => "Multiply",
        BinaryOperator::Divide => "Divide",
        BinaryOperator::Equal => "Equal",
        BinaryOperator::NotEqual => "NotEqual",
        BinaryOperator::LessThan => "LessThan",
        BinaryOperator::LessThanOrEqual => "LessThanOrEqual",
        BinaryOperator::GreaterThan => "GreaterThan",
        BinaryOperator::GreaterThanOrEqual => "GreaterThanOrEqual",
    }
}

} // verus!
