use flang::ast::{BinaryOperator, Expression, ExpressionData};
use flang::codegen::{entry_function, ComparisonPredicate, EntryError};
use flang::diagnostics::Diagnostic;
use flang::driver::compile;
use flang::elaboration::ElaboratedProgram;
use flang::lowering::{emit, ArithmeticOpcode, Callee, ModulePlan, Step};
use flang::parser::Parser;
use flang::source::{SourceFile, SourceFileManager, SourceId};
use flang::token::TokenKind;
use flang::tokenizer::Tokenizer;
use flang::types::TargetInfo;

fn compile_text(text: &str) -> Result<ElaboratedProgram, Vec<Diagnostic>> {
    let mut sources = SourceFileManager::new();
    let id = sources.add_file("<test>".to_owned(), text.to_owned());
    compile(&sources, id, TargetInfo::native())
}

fn compiled(text: &str) -> ElaboratedProgram {
    match compile_text(text) {
        Ok(program) => program,
        Err(diagnostics) => panic!("program should compile: {diagnostics:#?}"),
    }
}

fn planned(program: &ElaboratedProgram) -> ModulePlan {
    match emit(program, TargetInfo::native()) {
        Ok(plan) => plan,
        Err(error) => panic!("lowering should succeed: {error}"),
    }
}

fn all_steps(plan: &ModulePlan) -> Vec<&Step> {
    plan.functions.iter().flat_map(|function| function.blocks.iter()).flat_map(|block| block.steps.iter()).collect()
}

#[test]
fn parsed_items_cover_the_tokens_in_order() {
    let text = "comp a = 1; pub comp b: i64 = a + 2;";
    let source = SourceFile::new(SourceId(0), "items.fl".to_owned(), text.to_owned());
    let tokens = match Tokenizer::new(&source).tokenize() {
        Ok(tokens) => tokens,
        Err(diagnostics) => panic!("tokenization should succeed: {diagnostics:#?}"),
    };
    let program = match Parser::new(&source, &tokens).parse() {
        Ok(program) => program,
        Err(diagnostics) => panic!("parsing should succeed: {diagnostics:#?}"),
    };
    assert_eq!(program.items.len(), 2);
    assert_eq!(tokens.len(), 15);
    assert_eq!(tokens[0].kind, TokenKind::Comp);
    assert_eq!(tokens[4].kind, TokenKind::Semi);
    assert_eq!(tokens[5].kind, TokenKind::Pub);
    assert_eq!(tokens[14].kind, TokenKind::Semi);
    assert_eq!((program.items[0].span.start, program.items[0].span.end), (tokens[0].span.start, tokens[4].span.end));
    assert_eq!((program.items[1].span.start, program.items[1].span.end), (tokens[5].span.start, tokens[14].span.end));
}

#[test]
fn a_lexical_error_gives_exactly_the_tokenizer_diagnostics() {
    let text = "comp a = 1 $ 2;";
    let mut sources = SourceFileManager::new();
    let id = sources.add_file("lexical.fl".to_owned(), text.to_owned());
    let from_tokenizer = match Tokenizer::new(sources.get_file(id)).tokenize() {
        Ok(_) => panic!("tokenization should fail"),
        Err(diagnostics) => diagnostics,
    };
    let from_compiler = match compile(&sources, id, TargetInfo::native()) {
        Ok(_) => panic!("compilation should fail"),
        Err(diagnostics) => diagnostics,
    };
    assert!(!from_compiler.is_empty());
    assert_eq!(format!("{from_compiler:?}"), format!("{from_tokenizer:?}"));
}

#[test]
fn the_entry_symbol_is_named_main() {
    let program = compiled(
        r#"
        comp helper = 1;
        comp main = fn() -> i64 {
            return helper;
        };
        "#,
    );
    let main = program.entry_symbol.expect("the entry module defines main");
    assert_eq!(program.symbols.get(main).name, "main");
}

#[test]
fn lowering_declares_every_function_and_calls_the_entry_point() {
    let program = compiled(
        r#"
        comp small = fn(x: i32) -> bool {
            return x < 3;
        };
        comp main = fn() -> i64 {
            if small(2) {
                return 1;
            }
            return 0;
        };
        "#,
    );
    let plan = planned(&program);
    assert_eq!(plan.functions.len(), program.functions.len());
    assert_eq!(plan.functions.len(), 2);
    assert_eq!(plan.functions[0].name, "flang_fn_0");
    assert_eq!(plan.functions[0].parameter_widths, vec![32]);
    assert_eq!(plan.functions[0].return_width, Some(1));
    assert_eq!(plan.functions[1].name, "flang_fn_1");
    assert!(plan.functions[1].parameter_widths.is_empty());
    assert_eq!(plan.functions[1].return_width, Some(64));

    let links: Vec<&str> = plan.externals.iter().map(|external| external.link_name.as_str()).collect();
    assert_eq!(links, vec!["flang_print_i64", "flang_print_bool", "flang_read_byte", "flang_print_ascii"]);
    for pair in plan.externals.windows(2) {
        assert!(pair[0].symbol.0 < pair[1].symbol.0);
    }

    let entry = entry_function(&program).expect("main is a valid entry point");
    assert_eq!(entry.index(), 1);
    assert_eq!(plan.main.name, "main");
    assert!(plan.main.parameter_widths.is_empty());
    assert_eq!(plan.main.blocks.len(), 1);
    let steps = &plan.main.blocks[0].steps;
    assert_eq!(steps.len(), 3);
    let result = match &steps[0] {
        Step::Call { dest: Some(result), callee: Callee::Function(callee), arguments } => {
            assert_eq!(*callee, entry);
            assert!(arguments.is_empty());
            *result
        },
        other => panic!("expected the call of the entry point, found {other:?}"),
    };
    let status = match &steps[1] {
        Step::Truncate { dest, value, width: 32 } => {
            assert_eq!(*value, result);
            *dest
        },
        other => panic!("expected a truncation to 32 bits, found {other:?}"),
    };
    assert!(matches!(&steps[2], Step::Return { value: Some(value) } if *value == status));
}

#[test]
fn lowering_picks_signed_or_unsigned_instructions_by_type() {
    let program = compiled(
        r#"
        comp main = fn() -> i64 {
            let q: u32 = 9u32 / 2u32;
            if q < 3u32 {
                return 7 / 2;
            }
            if 1 < 2 {
                return 1;
            }
            return 0;
        };
        "#,
    );
    let plan = planned(&program);
    let steps = all_steps(&plan);
    assert!(steps.iter().any(|step| matches!(step, Step::Arithmetic { opcode: ArithmeticOpcode::UnsignedDivide, .. })));
    assert!(steps.iter().any(|step| matches!(step, Step::Arithmetic { opcode: ArithmeticOpcode::SignedDivide, .. })));
    assert!(steps.iter().any(|step| matches!(step, Step::Compare { predicate: ComparisonPredicate::UnsignedLess, .. })));
    assert!(steps.iter().any(|step| matches!(step, Step::Compare { predicate: ComparisonPredicate::SignedLess, .. })));
}

#[test]
fn literals_are_planned_as_their_bit_patterns() {
    let program = compiled(
        r#"
        comp main = fn() -> i64 {
            let small: i8 = -1i8;
            let flag: bool = true;
            let n: i64 = 300;
            return -n;
        };
        "#,
    );
    let plan = planned(&program);
    let steps = all_steps(&plan);
    assert!(steps.iter().any(|step| matches!(step, Step::Constant { width: 64, bits: 300, signed: true, .. })));
    assert!(steps.iter().any(|step| matches!(step, Step::Constant { width: 1, bits: 1, signed: false, .. })));
    assert!(steps.iter().any(|step| matches!(step, Step::Constant { width: 8, bits: 255, signed: true, .. })));
    assert!(steps.iter().any(|step| matches!(step, Step::Negate { .. })));
}

#[test]
fn entry_points_are_checked_before_lowering() {
    let cases = [
        ("comp answer = 42;", EntryError::NoMain, "entry module does not define `main`"),
        ("comp main = 42;", EntryError::NotAFunction, "`main` must be a compile-time-known function"),
        (
            "comp main = fn(x: i64) -> i64 { return x; };",
            EntryError::TakesParameters,
            "`main` must not take parameters",
        ),
        ("comp main = fn() -> bool { return true; };", EntryError::WrongReturnType, "`main` must return i64"),
    ];
    for (text, expected, message) in cases {
        let program = compiled(text);
        assert_eq!(entry_function(&program), Err(expected), "for {text}");
        assert_eq!(expected.message(), message);
        match emit(&program, TargetInfo::native()) {
            Ok(_) => panic!("lowering should fail for {text}"),
            Err(error) => assert_eq!(error, message),
        }
    }
}

fn is_terminator(step: &Step) -> bool {
    matches!(step, Step::Return { .. } | Step::Branch { .. } | Step::ConditionalBranch { .. } | Step::Unreachable)
}

#[test]
fn every_planned_block_ends_with_its_only_terminator() {
    let program = compiled(
        r#"
        comp N = 3usize;
        comp main = fn() -> i64 {
            let mut total: i64 = 0;
            let mut i: i64 = 0;
            let values: [N]i64 = [0; N];
            while i < 3 {
                if i == 1 {
                    total = total + values[1];
                } else if i == 2 {
                    total = total + 2;
                } else {
                    total = total + 1;
                }
                i = i + 1;
            }
            if total > 100 {
                return 1;
            } else {
                return total;
            }
        };
        "#,
    );
    let plan = planned(&program);
    for function in plan.functions.iter().chain(std::iter::once(&plan.main)) {
        for block in &function.blocks {
            let (last, rest) = block.steps.split_last().expect("a block is never empty");
            assert!(is_terminator(last), "block {} of {} is not terminated", block.name, function.name);
            assert!(rest.iter().all(|step| !is_terminator(step)), "block {} of {} ends twice", block.name, function.name);
        }
    }
}

fn shape(expression: &Expression, text: &str) -> String {
    match &expression.data {
        ExpressionData::Binary { lhs, operator, rhs } => {
            let symbol = match operator {
                BinaryOperator::Add => "+",
                BinaryOperator::Subtract => "-",
                BinaryOperator::Multiply => "*",
                BinaryOperator::Divide => "/",
                BinaryOperator::Equal => "==",
                BinaryOperator::NotEqual => "!=",
                BinaryOperator::LessThan => "<",
                BinaryOperator::LessThanOrEqual => "<=",
                BinaryOperator::GreaterThan => ">",
                BinaryOperator::GreaterThanOrEqual => ">=",
            };
            format!("({} {} {})", shape(lhs, text), symbol, shape(rhs, text))
        },
        _ => text[expression.span.start..expression.span.end].to_owned(),
    }
}

#[test]
fn binary_operators_group_by_precedence_and_to_the_left() {
    let text = "comp x = 1 + 2 * 3 - 4 / 2 / 1 == 5 < 6; comp y = a - b - c;";
    let source = SourceFile::new(SourceId(0), "precedence.fl".to_owned(), text.to_owned());
    let tokens = match Tokenizer::new(&source).tokenize() {
        Ok(tokens) => tokens,
        Err(diagnostics) => panic!("tokenization should succeed: {diagnostics:#?}"),
    };
    let program = match Parser::new(&source, &tokens).parse() {
        Ok(program) => program,
        Err(diagnostics) => panic!("parsing should succeed: {diagnostics:#?}"),
    };
    let expressions: Vec<String> = program
        .items
        .iter()
        .map(|item| match &item.data {
            flang::ast::ItemData::Binding(binding) => shape(&binding.expression, text),
        })
        .collect();
    assert_eq!(expressions[0], "(((1 + (2 * 3)) - ((4 / 2) / 1)) == (5 < 6))");
    assert_eq!(expressions[1], "((a - b) - c)");
}

#[test]
fn items_record_their_visibility_and_name() {
    let text = "pub comp shown = 1; comp hidden = 2;";
    let source = SourceFile::new(SourceId(0), "items.fl".to_owned(), text.to_owned());
    let tokens = match Tokenizer::new(&source).tokenize() {
        Ok(tokens) => tokens,
        Err(diagnostics) => panic!("tokenization should succeed: {diagnostics:#?}"),
    };
    let program = match Parser::new(&source, &tokens).parse() {
        Ok(program) => program,
        Err(diagnostics) => panic!("parsing should succeed: {diagnostics:#?}"),
    };
    let names: Vec<(&str, flang::ast::Visibility)> = program
        .items
        .iter()
        .map(|item| match &item.data {
            flang::ast::ItemData::Binding(binding) => (&text[binding.name.start..binding.name.end], item.visibility),
        })
        .collect();
    assert_eq!(names, vec![("shown", flang::ast::Visibility::Public), ("hidden", flang::ast::Visibility::Private)]);
}

#[test]
fn bindings_of_one_function_share_its_identity() {
    let program = compiled(
        r#"
        comp first = fn() -> i64 {
            return 1;
        };
        comp second = first;
        "#,
    );
    let value = |name: &str| {
        let (id, _) = program.symbols.find_by_name(name).expect("the binding exists");
        match program.values.get(id) {
            Some(flang::comptime::ComptimeValue::Function(function)) => *function,
            other => panic!("expected a function value, found {other:?}"),
        }
    };
    assert_eq!(value("first"), value("second"));
    assert_eq!(program.functions.len(), 1);
}

#[test]
fn elaboration_starts_from_the_builtin_symbols() {
    let program = compiled("comp answer = 1;");
    let names: Vec<&str> = program.symbols.symbols.iter().take(18).map(|symbol| symbol.name.as_str()).collect();
    assert_eq!(
        names,
        vec![
            "u8", "i8", "u16", "i16", "u32", "i32", "u64", "i64", "usize", "isize", "type", "str", "unit", "bool",
            "print_i64", "print_bool", "read_byte", "print_ascii",
        ]
    );
    for symbol in &program.symbols.symbols[..14] {
        assert!(matches!(symbol.kind, flang::symbols::SymbolKind::BuiltinType(_)));
    }
    let links: Vec<String> = program.symbols.symbols[14..18]
        .iter()
        .map(|symbol| match &symbol.kind {
            flang::symbols::SymbolKind::ExternFunction { link_name, .. } => link_name.clone(),
            other => panic!("expected an external function, found {other:?}"),
        })
        .collect();
    assert_eq!(links, vec!["flang_print_i64", "flang_print_bool", "flang_read_byte", "flang_print_ascii"]);
    assert_eq!(program.symbols.symbols[18].name, "answer");
}

#[test]
fn declarations_bind_every_top_level_name_and_report_repeats() {
    let mut sources = SourceFileManager::new();
    let id = sources.add_file("declarations.fl".to_owned(), "comp a = 1; comp b = a; comp a = 2;".to_owned());
    let program = match flang::driver::parse_file(&sources, id) {
        Ok(program) => program,
        Err(diagnostics) => panic!("parsing should succeed: {diagnostics:#?}"),
    };
    let mut elaborator = flang::elaboration::Elaborator::new(&sources, id, TargetInfo::native());
    let module = elaborator.entry_module();
    elaborator.collect_declarations(module, program);
    let scope = elaborator.module_scope(module).expect("the entry module has a scope");
    let a = elaborator.environment.lookup_in(scope, "a").expect("a is declared");
    let b = elaborator.environment.lookup_in(scope, "b").expect("b is declared");
    assert_eq!(elaborator.symbols.get(a).name, "a");
    assert_eq!(elaborator.symbols.get(b).name, "b");
    assert_eq!(elaborator.diagnostics.len(), 1);
    assert_eq!(elaborator.diagnostics[0].message, "Duplicate binding found");
}

#[test]
fn one_link_name_is_declared_once() {
    let program = compiled(
        r#"
        comp put = @extern<"C", "putchar", fn(i32) -> i32>;
        comp put_again = @extern<"C", "putchar", fn(i32) -> i32>;
        "#,
    );
    let external = |name: &str| {
        let (id, _) = program.symbols.find_by_name(name).expect("the binding exists");
        match program.values.get(id) {
            Some(flang::comptime::ComptimeValue::ExternFunction(symbol)) => *symbol,
            other => panic!("expected an external function, found {other:?}"),
        }
    };
    assert_eq!(external("put"), external("put_again"));
    let declared = program
        .symbols
        .symbols
        .iter()
        .filter(|symbol| matches!(&symbol.kind, flang::symbols::SymbolKind::ExternFunction { link_name, .. } if link_name == "putchar"))
        .count();
    assert_eq!(declared, 1);
}

#[test]
fn conflicting_external_declarations_are_reported() {
    let diagnostics = match compile_text(
        r#"
        comp put = @extern<"C", "putchar", fn(i32) -> i32>;
        comp other = @extern<"C", "putchar", fn(i64) -> i32>;
        "#,
    ) {
        Ok(_) => panic!("compilation should fail"),
        Err(diagnostics) => diagnostics,
    };
    assert!(diagnostics.iter().any(|diagnostic| diagnostic.message == "Conflicting external function declarations"));
}
