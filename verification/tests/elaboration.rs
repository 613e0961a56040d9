use flang::ast::Program;
use flang::comptime::ComptimeValue;
use flang::elaboration::Elaborator;
use flang::parser::Parser;
use flang::source::{SourceFileManager, SourceId};
use flang::symbols::Module;
use flang::tokenizer::Tokenizer;
use flang::types::{IntegerType, TargetInfo};

fn parse(sources: &SourceFileManager, id: SourceId) -> Program {
    let source = sources.get_file(id);
    let tokens = match Tokenizer::new(source).tokenize() {
        Ok(tokens) => tokens,
        Err(_) => panic!("tokenization should succeed"),
    };
    match Parser::new(source, &tokens).parse() {
        Ok(program) => program,
        Err(_) => panic!("parsing should succeed"),
    }
}

#[test]
fn module_bindings_resolve_in_their_defining_scope() {
    let mut sources = SourceFileManager::new();

    let source_a = sources.add_file(
        "a.fl".to_owned(),
        "comp answer = helper; comp helper = 10;".to_owned(),
    );
    let source_b = sources.add_file(
        "b.fl".to_owned(),
        "comp answer = helper; comp helper = 20;".to_owned(),
    );

    let program_a = parse(&sources, source_a);
    let program_b = parse(&sources, source_b);

    let mut elaborator = Elaborator::new(&sources, source_a, TargetInfo::native());

    let module_a = elaborator.entry_module();
    let scope_a = elaborator.module_scope(module_a).expect("A should have a scope");

    // Leave A for built-ins, then create its sibling B.
    elaborator.environment.pop_scope();
    elaborator.environment.push_scope();

    let scope_b = elaborator.environment.current_scope();
    let module_b = elaborator.modules.insert(Module { source: source_b, scope: scope_b });

    // Collect A while B is current.
    elaborator.collect_declarations(module_a, program_a);
    assert_eq!(elaborator.environment.current_scope(), scope_b);

    // Collect B while A is current.
    elaborator.environment.switch_scope(scope_a);
    elaborator.collect_declarations(module_b, program_b);
    assert_eq!(elaborator.environment.current_scope(), scope_a);

    assert!(elaborator.diagnostics.is_empty(), "{:#?}", elaborator.diagnostics);

    let answer_a = elaborator.environment.lookup_in(scope_a, "answer").expect("A should define answer");
    let answer_b = elaborator.environment.lookup_in(scope_b, "answer").expect("B should define answer");

    assert_ne!(answer_a, answer_b);

    // Evaluate each binding while the OTHER module is current.
    elaborator.environment.switch_scope(scope_b);
    let value_a = elaborator.ensure_binding_evaluated(answer_a);
    assert_eq!(elaborator.environment.current_scope(), scope_b);

    elaborator.environment.switch_scope(scope_a);
    let value_b = elaborator.ensure_binding_evaluated(answer_b);
    assert_eq!(elaborator.environment.current_scope(), scope_a);

    assert!(elaborator.diagnostics.is_empty(), "{:#?}", elaborator.diagnostics);

    assert!(matches!(
        value_a.expect("A's answer should evaluate"),
        ComptimeValue::Integer { value: 10, type_: IntegerType::I64 }
    ));
    assert!(matches!(
        value_b.expect("B's answer should evaluate"),
        ComptimeValue::Integer { value: 20, type_: IntegerType::I64 }
    ));
}

#[test]
fn imported_template_uses_its_defining_scope() {
    let mut sources = SourceFileManager::new();

    let source_a = sources.add_file(
        "a.fl".to_owned(),
        r#"
          comp helper = 40;
          comp add = fn<n: i64>() -> i64 {
              return helper + n;
          };
          "#
        .to_owned(),
    );

    let source_b = sources.add_file(
        "b.fl".to_owned(),
        r#"
          comp helper = 2;
          comp answer = imported_add<helper>();
          "#
        .to_owned(),
    );

    let program_a = parse(&sources, source_a);
    let program_b = parse(&sources, source_b);

    let mut elaborator = Elaborator::new(&sources, source_a, TargetInfo::native());

    let module_a = elaborator.entry_module();
    let scope_a = elaborator.module_scope(module_a).expect("A should have a scope");

    // Create B as a sibling of A beneath built-ins.
    elaborator.environment.pop_scope();
    elaborator.environment.push_scope();

    let scope_b = elaborator.environment.current_scope();
    let module_b = elaborator.modules.insert(Module { source: source_b, scope: scope_b });

    elaborator.collect_declarations(module_a, program_a);

    // Simulate importing A.add into B by sharing its symbol ID.
    let add = elaborator.environment.lookup_in(scope_a, "add").expect("A should define add");

    elaborator.environment.switch_scope(scope_b);
    elaborator.environment.define("imported_add".to_owned(), add);

    elaborator.collect_declarations(module_b, program_b);

    let answer = elaborator.environment.lookup_in(scope_b, "answer").expect("B should define answer");

    let result = elaborator.ensure_binding_evaluated(answer);

    assert!(elaborator.diagnostics.is_empty(), "{:#?}", elaborator.diagnostics);

    assert!(matches!(
        result.expect("answer should evaluate"),
        ComptimeValue::Integer { value: 42, type_: IntegerType::I64 }
    ));

    assert_eq!(elaborator.environment.current_scope(), scope_b);
}

fn unit_expression(source: SourceId) -> flang::hir::HirExpression {
    flang::hir::HirExpression {
        type_: flang::types::Type::Unit,
        span: flang::source::Span { source, start: 0, end: 0 },
        data: flang::hir::HirExpressionData::Error,
    }
}

fn integer_value(value: i128) -> ComptimeValue {
    ComptimeValue::Integer { value, type_: IntegerType::I64 }
}

#[test]
fn combining_values_keeps_operand_order() {
    let mut sources = SourceFileManager::new();
    let id = sources.add_file("order.fl".to_owned(), String::new());
    let mut elaborator = Elaborator::new(&sources, id, TargetInfo::native());
    let expression = unit_expression(id);
    let difference = elaborator.combine_values(&expression, flang::ast::BinaryOperator::Subtract, integer_value(7), integer_value(2));
    assert!(matches!(difference, ComptimeValue::Integer { value: 5, type_: IntegerType::I64 }));
    let quotient = elaborator.combine_values(&expression, flang::ast::BinaryOperator::Divide, integer_value(-7), integer_value(2));
    assert!(matches!(quotient, ComptimeValue::Integer { value: -3, type_: IntegerType::I64 }));
    let less = elaborator.combine_values(&expression, flang::ast::BinaryOperator::LessThan, integer_value(2), integer_value(7));
    assert!(matches!(less, ComptimeValue::Bool(true)));
    assert!(elaborator.diagnostics.is_empty());
}

#[test]
fn combining_values_reports_overflow_and_division_by_zero() {
    let mut sources = SourceFileManager::new();
    let id = sources.add_file("overflow.fl".to_owned(), String::new());
    let mut elaborator = Elaborator::new(&sources, id, TargetInfo::native());
    let expression = unit_expression(id);
    let sum = elaborator.combine_values(&expression, flang::ast::BinaryOperator::Add, integer_value(9223372036854775806), integer_value(2));
    assert!(matches!(sum, ComptimeValue::Error));
    assert_eq!(elaborator.diagnostics.last().unwrap().message, "Integer overflow");
    let quotient = elaborator.combine_values(&expression, flang::ast::BinaryOperator::Divide, integer_value(1), integer_value(0));
    assert!(matches!(quotient, ComptimeValue::Error));
    assert_eq!(elaborator.diagnostics.last().unwrap().message, "Division by zero");
    let silent = elaborator.combine_values(&expression, flang::ast::BinaryOperator::Add, ComptimeValue::Error, integer_value(1));
    assert!(matches!(silent, ComptimeValue::Error));
    assert_eq!(elaborator.diagnostics.len(), 2);
}

#[test]
fn finishing_gives_every_reported_diagnostic() {
    let mut sources = SourceFileManager::new();
    let id = sources.add_file("finish.fl".to_owned(), "comp answer = 9223372036854775806 + 2;".to_owned());
    let program = parse(&sources, id);
    let mut elaborator = Elaborator::new(&sources, id, TargetInfo::native());
    elaborator.evaluate_program(program);
    let reported = elaborator.diagnostics.len();
    assert!(reported > 0);
    match elaborator.finish() {
        Ok(_) => panic!("an overflow must make elaboration fail"),
        Err(diagnostics) => {
            assert_eq!(diagnostics.len(), reported);
            assert!(diagnostics.iter().any(|d| d.message == "Integer overflow"));
        },
    }
}

#[test]
fn a_literal_binding_elaborates() {
    let mut sources = SourceFileManager::new();
    let id = sources.add_file("literal.fl".to_owned(), "comp answer = 42;".to_owned());
    let program = parse(&sources, id);
    let elaborator = Elaborator::new(&sources, id, TargetInfo::native());
    assert!(elaborator.elaborate(program).is_ok());
}
