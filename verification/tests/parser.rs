use flang::ast::{Binding, ExpressionData, Item, ItemData, Program, TypeExpressionData};
use flang::diagnostics::Diagnostic;
use flang::parser::Parser;
use flang::source::{SourceFile, SourceFileManager, SourceId};
use flang::token::Token;
use flang::tokenizer::Tokenizer;

fn tokenize_ok(source: &SourceFile) -> Vec<Token> {
    match Tokenizer::new(source).tokenize() {
        Ok(tokens) => tokens,
        Err(diagnostics) => panic!("tokenization should succeed: {diagnostics:#?}"),
    }
}

fn parse_ok(source: &SourceFile, tokens: &[Token]) -> Program {
    match Parser::new(source, tokens).parse() {
        Ok(program) => program,
        Err(diagnostics) => panic!("parsing should succeed: {diagnostics:#?}"),
    }
}

fn binding_of(item: &Item) -> &Binding {
    match &item.data {
        ItemData::Binding(binding) => binding,
    }
}

fn parse_source(text: &str) -> (SourceFile, Program) {
    let source = SourceFile::new(SourceId(0), "test.fl".to_owned(), text.to_owned());
    let tokens = tokenize_ok(&source);
    let program = parse_ok(&source, &tokens);
    (source, program)
}

fn assert_string_binding(input: &str, expected_literal: &str) {
    let (source, program) = parse_source(input);

    assert_eq!(program.items.len(), 1);

    let binding = binding_of(&program.items[0]);

    assert!(matches!(binding.expression.data, ExpressionData::StringLiteral));

    assert_eq!(source.span_text(binding.expression.span), expected_literal);
}

fn parse_error(text: &str) -> Vec<Diagnostic> {
    let source = SourceFile::new(SourceId(0), "test.fl".to_owned(), text.to_owned());
    let tokens = tokenize_ok(&source);
    match Parser::new(&source, &tokens).parse() {
        Ok(_) => panic!("parsing should fail"),
        Err(diagnostics) => diagnostics,
    }
}

#[test]
fn parses_string_literal_expression() {
    assert_string_binding("comp name = \"getchar\";", "\"getchar\"");
}

#[test]
fn parses_empty_string_literal_expression() {
    assert_string_binding("comp name = \"\";", "\"\"");
}

#[test]
fn parses_utf8_string_literal_expression() {
    assert_string_binding("comp name = \"héllo 世界\";", "\"héllo 世界\"");
}

#[test]
fn parses_zero_parameter_function_type_value() {
    let (source, program) = parse_source("comp Signature = fn() -> i64;");

    let binding = binding_of(&program.items[0]);

    let ExpressionData::TypeValue(type_expression) = &binding.expression.data else {
        panic!("expected a function-type value");
    };

    let TypeExpressionData::Function {
        parameters,
        return_type,
    } = &type_expression.data
    else {
        panic!("expected a function type");
    };

    assert!(parameters.is_empty());
    assert_eq!(source.span_text(return_type.span), "i64");
    assert_eq!(source.span_text(binding.expression.span), "fn() -> i64");
}

#[test]
fn parses_one_parameter_function_type_value() {
    let (source, program) = parse_source("comp Signature = fn(i32) -> i64;");

    let binding = binding_of(&program.items[0]);

    let ExpressionData::TypeValue(type_expression) = &binding.expression.data else {
        panic!("expected a function-type value");
    };

    let TypeExpressionData::Function {
        parameters,
        return_type,
    } = &type_expression.data
    else {
        panic!("expected a function type");
    };

    assert_eq!(parameters.len(), 1);
    assert_eq!(source.span_text(parameters[0].span), "i32");
    assert_eq!(source.span_text(return_type.span), "i64");
}

#[test]
fn parses_multiple_parameter_function_type_value() {
    let (source, program) = parse_source("comp Signature = fn(i32, i64) -> i64;");

    let binding = binding_of(&program.items[0]);

    let ExpressionData::TypeValue(type_expression) = &binding.expression.data else {
        panic!("expected a function-type value");
    };

    let TypeExpressionData::Function {
        parameters,
        return_type,
    } = &type_expression.data
    else {
        panic!("expected a function type");
    };

    assert_eq!(parameters.len(), 2);
    assert_eq!(source.span_text(parameters[0].span), "i32");
    assert_eq!(source.span_text(parameters[1].span), "i64");
    assert_eq!(source.span_text(return_type.span), "i64");
}

#[test]
fn parses_nested_function_type_value() {
    let (source, program) = parse_source("comp Signature = fn(fn(i64) -> i32) -> i64;");

    let binding = binding_of(&program.items[0]);

    let ExpressionData::TypeValue(type_expression) = &binding.expression.data else {
        panic!("expected a function-type value");
    };

    let TypeExpressionData::Function {
        parameters,
        return_type,
    } = &type_expression.data
    else {
        panic!("expected an outer function type");
    };

    assert_eq!(parameters.len(), 1);
    assert_eq!(source.span_text(parameters[0].span), "fn(i64) -> i32");
    assert_eq!(source.span_text(return_type.span), "i64");

    assert!(matches!(
        &parameters[0].data,
        TypeExpressionData::Function { .. }
    ));
}

#[test]
fn still_parses_named_function_literal() {
    let (source, program) = parse_source(
        r#"
      comp identity = fn(value: i64) -> i64 {
          return value;
      };
      "#,
    );

    let binding = binding_of(&program.items[0]);

    let ExpressionData::Function(function) = &binding.expression.data else {
        panic!("expected a function literal");
    };

    assert_eq!(function.runtime_args.len(), 1);
    assert_eq!(source.span_text(function.runtime_args[0].name), "value");
}

#[test]
fn rejects_unnamed_function_literal_parameter() {
    let diagnostics = parse_error(
        r#"
      comp invalid = fn(i64) -> i64 {
          return 1;
      };
      "#,
    );

    assert!(diagnostics.iter().any(|diagnostic| {
        diagnostic
            .message
            .contains("Function implementation parameters require names")
    }));
}

#[test]
fn rejects_named_function_type_parameter_for_now() {
    let diagnostics = parse_error("comp Signature = fn(value: i64) -> i64;");

    assert!(diagnostics.iter().any(|diagnostic| {
        diagnostic
            .message
            .contains("Named function-type parameters are not supported yet")
    }));
}

#[test]
fn parses_function_type_annotation() {
    let (source, program) = parse_source(
        r#"
      comp higher_order = fn<
          callback: fn(i64) -> i64
      >() -> i64 {
          return 0;
      };
      "#,
    );

    let binding = binding_of(&program.items[0]);

    let ExpressionData::Function(function) = &binding.expression.data else {
        panic!("expected a function template");
    };

    assert_eq!(function.comptime_args.len(), 1);

    assert!(matches!(
        &function.comptime_args[0].type_annotation.data,
        TypeExpressionData::Function { .. }
    ));

    assert_eq!(
        source.span_text(function.comptime_args[0].type_annotation.span),
        "fn(i64) -> i64"
    );
}

#[test]
fn parses_bare_intrinsic() {
    let (source, program) = parse_source("comp x = @trap;");

    let binding = binding_of(&program.items[0]);

    let ExpressionData::Intrinsic { name } = &binding.expression.data else {
        panic!("expected an intrinsic");
    };

    assert_eq!(source.span_text(*name), "trap");
    assert_eq!(source.span_text(binding.expression.span), "@trap");
}

#[test]
fn parses_intrinsic_runtime_call() {
    let (source, program) = parse_source("comp x = @trap();");

    let binding = binding_of(&program.items[0]);

    let ExpressionData::Call { callee, arguments } = &binding.expression.data else {
        panic!("expected a call");
    };

    assert!(arguments.is_empty());

    let ExpressionData::Intrinsic { name } = &callee.data else {
        panic!("expected the call target to be an intrinsic");
    };

    assert_eq!(source.span_text(*name), "trap");
    assert_eq!(source.span_text(binding.expression.span), "@trap()");
}

#[test]
fn parses_specialized_extern_intrinsic() {
    let (source, program) = parse_source(r#"comp x = @extern<"C", "getchar", fn() -> i32>;"#);

    let binding = binding_of(&program.items[0]);

    let ExpressionData::Specialize { callee, arguments } = &binding.expression.data else {
        panic!("expected intrinsic specialization");
    };

    let ExpressionData::Intrinsic { name } = &callee.data else {
        panic!("expected an intrinsic specialization target");
    };

    assert_eq!(source.span_text(*name), "extern");
    assert_eq!(arguments.len(), 3);

    assert!(matches!(arguments[0].data, ExpressionData::StringLiteral));
    assert!(matches!(arguments[1].data, ExpressionData::StringLiteral));
    assert!(matches!(arguments[2].data, ExpressionData::TypeValue(_)));

    assert_eq!(source.span_text(arguments[0].span), "\"C\"");
    assert_eq!(source.span_text(arguments[1].span), "\"getchar\"");
    assert_eq!(source.span_text(arguments[2].span), "fn() -> i32");
}

#[test]
fn parses_runtime_call_after_intrinsic_specialization() {
    let (source, program) = parse_source(r#"comp x = @foo<"compile-time">(123);"#);

    let binding = binding_of(&program.items[0]);

    let ExpressionData::Call {
        callee,
        arguments: runtime_arguments,
    } = &binding.expression.data
    else {
        panic!("expected a runtime call");
    };

    assert_eq!(runtime_arguments.len(), 1);
    assert_eq!(source.span_text(runtime_arguments[0].span), "123");

    let ExpressionData::Specialize {
        callee,
        arguments: comptime_arguments,
    } = &callee.data
    else {
        panic!("expected the call target to be specialized");
    };

    assert_eq!(comptime_arguments.len(), 1);
    assert_eq!(
        source.span_text(comptime_arguments[0].span),
        "\"compile-time\""
    );

    let ExpressionData::Intrinsic { name } = &callee.data else {
        panic!("expected an intrinsic specialization target");
    };

    assert_eq!(source.span_text(*name), "foo");
    assert_eq!(
        source.span_text(binding.expression.span),
        r#"@foo<"compile-time">(123)"#
    );
}

#[test]
fn rejects_intrinsic_without_name() {
    let diagnostics = parse_error("comp x = @;");

    assert!(diagnostics.iter().any(|diagnostic| {
        diagnostic
            .primary
            .text
            .contains("Expected identifier after `@`")
    }));
}

#[test]
fn rejects_intrinsic_specialization_without_name() {
    let diagnostics = parse_error(r#"comp x = @<"C">;"#);

    assert!(diagnostics.iter().any(|diagnostic| {
        diagnostic
            .primary
            .text
            .contains("Expected identifier after `@`")
    }));
}

#[test]
fn parses_chained_member_call() {
    let mut sources = SourceFileManager::new();
    let id = sources.add_file("test.fl".to_owned(), "comp result = std.io.print(42);".to_owned());
    let source = sources.get_file(id);

    let tokens = tokenize_ok(source);

    let program = parse_ok(source, &tokens);

    let binding = binding_of(&program.items[0]);

    let ExpressionData::Call { callee, arguments } = &binding.expression.data else {
        panic!("expected a call");
    };

    assert_eq!(arguments.len(), 1);
    assert_eq!(source.span_text(arguments[0].span), "42");

    let ExpressionData::Member { base, name } = &callee.data else {
        panic!("expected .print");
    };

    assert_eq!(source.span_text(*name), "print");
    assert_eq!(source.span_text(callee.span), "std.io.print");

    let ExpressionData::Member { base, name } = &base.data else {
        panic!("expected .io");
    };

    assert_eq!(source.span_text(*name), "io");
    assert!(matches!(&base.data, ExpressionData::Name));
    assert_eq!(source.span_text(base.span), "std");
}

#[test]
fn parses_literal_import() {
    let mut sources = SourceFileManager::new();
    let id = sources.add_file(
        "main.fl".to_owned(),
        r#"comp library = @import("./library.fl");"#.to_owned(),
    );

    let source = sources.get_file(id);
    let tokens = tokenize_ok(source);

    let program = parse_ok(source, &tokens);

    let binding = binding_of(&program.items[0]);

    let ExpressionData::Import { path } = &binding.expression.data else {
        panic!("expected an import expression");
    };

    assert_eq!(
      source.span_text(*path),
      r#""./library.fl""#,
  );

    assert_eq!(
      source.span_text(binding.expression.span),
      r#"@import("./library.fl")"#,
  );
}

#[test]
fn rejects_invalid_import_arguments() {
    for (text, expected_message) in [
        (
            "comp library = @import();",
            "Invalid import arguments",
        ),
        (
            r#"comp library = @import("./a.fl", "./b.fl");"#,
            "Invalid import arguments",
        ),
        (
            "comp library = @import(path);",
            "Import path must be a string literal",
        ),
        (
            "comp library = @import(42);",
            "Import path must be a string literal",
        ),
    ] {
        let mut sources = SourceFileManager::new();
        let id = sources.add_file("main.fl".to_owned(), text.to_owned());
        let source = sources.get_file(id);

        let tokens = tokenize_ok(source);

        let diagnostics = match Parser::new(source, &tokens).parse() {
            Ok(_) => panic!("invalid import should be rejected"),
            Err(diagnostics) => diagnostics,
        };

        assert!(
            diagnostics.iter().any(|diagnostic| {
                diagnostic.message == expected_message
            }),
            "expected {expected_message:?} for {text:?}, got: {diagnostics:#?}",
        );
    }
}
