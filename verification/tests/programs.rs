use flang::comptime::ComptimeValue;
use flang::diagnostics::Diagnostic;
use flang::driver::compile;
use flang::elaboration::ElaboratedProgram;
use flang::lowering::{emit, Step};
use flang::source::SourceFileManager;
use flang::types::{IntegerType, TargetInfo};

fn compile_text(text: &str) -> Result<ElaboratedProgram, Vec<Diagnostic>> {
    let mut sources = SourceFileManager::new();
    let id = sources.add_file("<test>".to_owned(), text.to_owned());
    compile(&sources, id, TargetInfo::native())
}

fn compiled(text: &str) -> ElaboratedProgram {
    match compile_text(text) {
        Ok(program) => program,
        Err(diagnostics) => panic!("program should compile: {diagnostics:#?}"),
    }
}

fn errors(text: &str) -> Vec<Diagnostic> {
    match compile_text(text) {
        Ok(_) => panic!("expected compilation to fail"),
        Err(diagnostics) => diagnostics,
    }
}

fn value_of<'a>(program: &'a ElaboratedProgram, name: &str) -> &'a ComptimeValue {
    let (id, _) = program.symbols.find_by_name(name).expect("the binding should exist");
    program.values.get(id).expect("the binding should have a value")
}

fn integer_of(program: &ElaboratedProgram, name: &str) -> (i128, IntegerType) {
    match value_of(program, name) {
        ComptimeValue::Integer { value, type_ } => (*value, *type_),
        other => panic!("expected an integer, found {other:?}"),
    }
}

#[test]
fn comptime_bindings_hold_their_values() {
    let program = compiled(
        r#"
        comp answer = 40;
        comp doubled = answer * 2 + 2;
        comp main = fn() -> i64 {
            return answer + 2;
        };
        "#,
    );
    assert_eq!(integer_of(&program, "answer"), (40, IntegerType::I64));
    assert_eq!(integer_of(&program, "doubled"), (82, IntegerType::I64));
    assert!(matches!(value_of(&program, "main"), ComptimeValue::Function(_)));
    assert!(program.entry_symbol.is_some());
}

#[test]
fn comptime_if_selects_the_branch() {
    let program = compiled(
        r#"
        comp choose = fn(condition: bool) -> i64 {
            if condition {
                return 31;
            } else {
                return 32;
            }
        };

        comp selected = choose(false);

        comp main = fn() -> i64 {
            return selected;
        };
        "#,
    );
    assert_eq!(integer_of(&program, "selected"), (32, IntegerType::I64));
}

#[test]
fn comptime_loops_and_locals_run() {
    let program = compiled(
        r#"
        comp sum_to = fn(limit: i64) -> i64 {
            let mut total = 0;
            let mut i = 0;
            while i < limit {
                i = i + 1;
                total = total + i;
            }
            return total;
        };

        comp total = sum_to(10);
        "#,
    );
    assert_eq!(integer_of(&program, "total"), (55, IntegerType::I64));
}

#[test]
fn literals_take_their_suffix_or_the_expected_type() {
    let program = compiled(
        r#"
        comp small: u8 = 200;
        comp count = 4usize * 2;
        comp negative = -5i32;
        comp plain = 7;
        "#,
    );
    assert_eq!(integer_of(&program, "small"), (200, IntegerType::U8));
    assert_eq!(integer_of(&program, "count"), (8, IntegerType::Usize));
    assert_eq!(integer_of(&program, "negative"), (-5, IntegerType::I32));
    assert_eq!(integer_of(&program, "plain"), (7, IntegerType::I64));
}

#[test]
fn literal_out_of_range_is_reported() {
    let diagnostics = errors("comp small: u8 = 256;");
    assert!(diagnostics.iter().any(|d| d.message == "Integer literal out of range"));
    let diagnostics = errors("comp negative = -5u32;");
    assert!(diagnostics.iter().any(|d| d.message == "Cannot negate an unsigned integer"));
    let diagnostics = errors("comp huge = 99999999999999999999;");
    assert!(diagnostics.iter().any(|d| d.message == "Integer literal is too large"));
    let diagnostics = errors("comp odd = 5q8;");
    assert!(diagnostics.iter().any(|d| d.message == "Unknown integer suffix"));
}

#[test]
fn strings_are_compile_time_values() {
    let program = compiled(
        r#"
        comp message = "héllo 世界";
        comp main = fn() -> i64 {
            return 0;
        };
        "#,
    );
    match value_of(&program, "message") {
        ComptimeValue::String(text) => assert_eq!(text, "héllo 世界"),
        other => panic!("expected a string, found {other:?}"),
    }
}

#[test]
fn specializations_use_their_arguments() {
    let program = compiled(
        r#"
        comp scale = fn<factor: i64>(value: i64) -> i64 {
            return value * factor;
        };

        comp tripled = scale<3>(14);
        comp again = scale<3>(2);
        "#,
    );
    assert_eq!(integer_of(&program, "tripled"), (42, IntegerType::I64));
    assert_eq!(integer_of(&program, "again"), (6, IntegerType::I64));
}

#[test]
fn type_mismatches_against_annotations_are_reported() {
    let diagnostics = errors("comp flag: bool = 5;");
    assert!(diagnostics.iter().any(|d| d.message == "Type mismatch"));
    let diagnostics = errors("comp total: i64 = true;");
    assert!(diagnostics.iter().any(|d| d.message == "Type mismatch"));
}

#[test]
fn mismatch_labels_show_the_expected_type() {
    let diagnostics = errors(
        r#"
        comp invalid = fn() -> i64 {
            return "putchar";
        };
        "#,
    );
    let mismatch = diagnostics.iter().find(|d| d.message == "Type mismatch").expect("a mismatch");
    assert!(mismatch.primary.text.contains("Integer(I64)"), "{:?}", mismatch.primary.text);
}

#[test]
fn unsupported_specialization_arguments_name_the_value() {
    let diagnostics = errors(
        r#"
        comp callback = fn() -> i64 {
            return 1;
        };
        comp take = fn<f: fn() -> i64>() -> i64 {
            return 0;
        };
        comp result = take<callback>();
        "#,
    );
    let unsupported = diagnostics
        .iter()
        .find(|d| d.message == "Unsupported compile-time argument")
        .expect("the argument should be rejected");
    assert!(unsupported.primary.text.contains("Function("), "{:?}", unsupported.primary.text);
}

#[test]
fn binding_cycles_are_reported() {
    let diagnostics = errors(
        r#"
        comp first = second;
        comp second = first;
        "#,
    );
    assert!(diagnostics.iter().any(|d| d.message == "Binding elaboration cycle"));
}

#[test]
fn duplicate_bindings_are_reported() {
    let diagnostics = errors(
        r#"
        comp value = 1;
        comp value = 2;
        "#,
    );
    assert!(diagnostics.iter().any(|d| d.message == "Duplicate binding found"));
}

#[test]
fn endless_compile_time_loops_stop_at_the_limit() {
    let diagnostics = errors(
        r#"
        comp spin = fn() -> i64 {
            while true {
            }
            return 0;
        };
        comp stuck = spin();
        "#,
    );
    assert!(diagnostics.iter().any(|d| d.message == "Compile-time evaluation limit reached"));
}

#[test]
fn runtime_values_are_unavailable_at_compile_time() {
    let diagnostics = errors(
        r#"
        comp read = fn() -> i64 {
            return read_byte();
        };
        comp value = read();
        "#,
    );
    assert!(diagnostics.iter().any(|d| d.message == "Value unavailable at compile time"));
}

#[test]
fn compiles_integer_main_to_llvm() {
    let program = compiled(
        r#"
        comp main = fn() -> i64 {
            return 6;
        };
        "#,
    );
    let plan = match emit(&program, TargetInfo::native()) {
        Ok(plan) => plan,
        Err(error) => panic!("lowering should succeed: {error}"),
    };
    assert_eq!(plan.functions.len(), 1);
    assert_eq!(plan.functions[0].name, "flang_fn_0");
    assert_eq!(plan.functions[0].return_width, Some(64));
    let steps = &plan.functions[0].blocks[0].steps;
    assert!(matches!(steps[0], Step::Constant { width: 64, bits: 6, .. }));
    assert!(matches!(steps.last(), Some(Step::Return { value: Some(_) })));
    assert_eq!(plan.main.name, "main");
    assert_eq!(plan.main.return_width, Some(32));
    assert!(plan.externals.iter().any(|external| external.link_name == "flang_print_i64"));
}

#[test]
fn lowering_requires_a_main_function() {
    let program = compiled("comp answer = 42;");
    match emit(&program, TargetInfo::native()) {
        Ok(_) => panic!("lowering should fail"),
        Err(error) => assert_eq!(error, "entry module does not define `main`"),
    }
}

#[test]
fn lowering_plans_branches_and_bounds_checks() {
    let program = compiled(
        r#"
        comp N = 4usize * 2;

        comp main = fn() -> i64 {
            let values: [N]i64 = [0; N];
            if true {
                return values[7];
            } else {
                return 1;
            }
        };
        "#,
    );
    let plan = match emit(&program, TargetInfo::native()) {
        Ok(plan) => plan,
        Err(error) => panic!("lowering should succeed: {error}"),
    };
    let names: Vec<&str> = plan.functions[0].blocks.iter().map(|block| block.name).collect();
    assert!(names.contains(&"if.then"));
    assert!(names.contains(&"index.invalid"));
    for block in &plan.functions[0].blocks {
        assert!(
            matches!(
                block.steps.last(),
                Some(Step::Return { .. } | Step::Branch { .. } | Step::ConditionalBranch { .. } | Step::Unreachable)
            ),
            "block {} is not terminated",
            block.name
        );
    }
}

fn external_called_in(plan: &flang::lowering::ModulePlan, link_name: &str) -> (Vec<u32>, Option<u32>, bool) {
    let declaration = plan
        .externals
        .iter()
        .find(|external| external.link_name == link_name)
        .expect("the external function is declared");
    let called = plan.functions.iter().any(|function| {
        function.blocks.iter().any(|block| {
            block.steps.iter().any(|step| {
                matches!(step, Step::Call { callee: flang::lowering::Callee::External(symbol), .. } if *symbol == declaration.symbol)
            })
        })
    });
    (declaration.parameter_widths.clone(), declaration.return_width, called)
}

#[test]
fn compiles_and_calls_extern_function() {
    let program = compiled(
        r#"
      comp c_put_char =
          @extern<"C", "putchar", fn(i32) -> i32>;

      comp main = fn() -> i64 {
          let result = c_put_char(65i32);
          return 0;
      };
      "#,
    );
    let plan = match emit(&program, TargetInfo::native()) {
        Ok(plan) => plan,
        Err(error) => panic!("lowering should succeed: {error}"),
    };
    assert_eq!(external_called_in(&plan, "putchar"), (vec![32], Some(32), true));
    let constant_65 = plan.functions.iter().any(|function| {
        function.blocks.iter().any(|block| {
            block.steps.iter().any(|step| matches!(step, Step::Constant { width: 32, bits: 65, .. }))
        })
    });
    assert!(constant_65);
}

#[test]
fn compiles_extern_with_computed_arguments() {
    let program = compiled(
        r#"
      comp ABI = "C";
      comp NAME = "getchar";
      comp Signature = fn() -> i32;

      comp c_get_char = @extern<ABI, NAME, Signature>;

      comp main = fn() -> i64 {
          let character = c_get_char();
          return 0;
      };
      "#,
    );
    let plan = match emit(&program, TargetInfo::native()) {
        Ok(plan) => plan,
        Err(error) => panic!("lowering should succeed: {error}"),
    };
    assert_eq!(external_called_in(&plan, "getchar"), (vec![], Some(32), true));
}

#[test]
fn a_function_that_returns_on_both_branches_needs_no_return_at_its_end() {
    let program = compiled(
        r#"
        comp pick = fn(flag: bool) -> i64 {
            if flag {
                return 1;
            } else {
                return 2;
            }
        };
        comp main = fn() -> i64 {
            return pick(true);
        };
        "#,
    );
    let plan = match emit(&program, TargetInfo::native()) {
        Ok(plan) => plan,
        Err(error) => panic!("lowering should succeed: {error}"),
    };
    let pick = &plan.functions[0];
    let last = pick.blocks.last().expect("the merge block");
    assert!(matches!(last.steps.as_slice(), [Step::Unreachable]));
}

#[test]
fn a_unit_function_is_given_a_return_at_its_end() {
    let program = compiled(
        r#"
        comp greet = fn() -> unit {
            print_i64(7);
        };
        comp main = fn() -> i64 {
            greet();
            return 0;
        };
        "#,
    );
    let plan = match emit(&program, TargetInfo::native()) {
        Ok(plan) => plan,
        Err(error) => panic!("lowering should succeed: {error}"),
    };
    let greet = &plan.functions[0];
    assert!(matches!(greet.blocks[0].steps.last(), Some(Step::Return { value: None })));
}

#[test]
fn a_value_function_that_can_run_off_its_end_is_not_lowered() {
    let program = compiled(
        r#"
        comp maybe = fn(flag: bool) -> i64 {
            if flag {
                return 1;
            }
        };
        comp main = fn() -> i64 {
            return maybe(true);
        };
        "#,
    );
    match emit(&program, TargetInfo::native()) {
        Ok(_) => panic!("lowering should fail"),
        Err(error) => assert_eq!(error, "Function body without a return"),
    }
}

#[test]
fn binary_operands_must_have_one_type() {
    let diagnostics = errors(
        r#"
        comp main = fn() -> i64 {
            let wide = 1i64;
            let narrow = 2i32;
            return wide + narrow;
        };
        "#,
    );
    assert!(diagnostics.iter().any(|d| d.message.starts_with("Expected an expression of type")));
}

#[test]
fn ordering_needs_integer_operands() {
    let diagnostics = errors(
        r#"
        comp main = fn() -> i64 {
            if true < false {
                return 1;
            }
            return 0;
        };
        "#,
    );
    assert!(diagnostics.iter().any(|d| d.message == "Operator requires integer operands"));
}

#[test]
fn comparisons_are_booleans_and_arithmetic_keeps_its_type() {
    let program = compiled(
        r#"
        comp small = 3i32 * 2i32;
        comp less = 3i32 < 4i32;
        comp same = true == false;
        "#,
    );
    assert_eq!(integer_of(&program, "small"), (6, IntegerType::I32));
    assert!(matches!(value_of(&program, "less"), ComptimeValue::Bool(true)));
    assert!(matches!(value_of(&program, "same"), ComptimeValue::Bool(false)));
}

#[test]
fn equality_needs_integers_or_booleans() {
    let diagnostics = errors(
        r#"
        comp greeting = "hi" == "hi";
        "#,
    );
    assert!(diagnostics.iter().any(|d| d.message == "Type does not support equality"));
}

#[test]
fn a_constant_index_must_lie_within_the_array() {
    let diagnostics = errors(
        r#"
        comp main = fn() -> i64 {
            let values = [0; 4];
            return values[4];
        };
        "#,
    );
    assert!(diagnostics.iter().any(|d| d.message == "Array index out of bounds"));
}

#[test]
fn only_arrays_can_be_indexed() {
    let diagnostics = errors(
        r#"
        comp main = fn() -> i64 {
            let value = 3;
            return value[0];
        };
        "#,
    );
    assert!(diagnostics.iter().any(|d| d.message == "Value is not indexable"));
}

#[test]
fn an_array_repetition_has_the_expected_length() {
    let diagnostics = errors(
        r#"
        comp main = fn() -> i64 {
            let values: [3]i64 = [0; 4];
            return 0;
        };
        "#,
    );
    assert!(diagnostics.iter().any(|d| d.message == "Array Length Mismatch"));
}

#[test]
fn a_call_gives_one_argument_per_parameter() {
    let diagnostics = errors(
        r#"
        comp add = fn(a: i64, b: i64) -> i64 {
            return a + b;
        };
        comp main = fn() -> i64 {
            return add(1);
        };
        "#,
    );
    assert!(diagnostics.iter().any(|d| d.message == "Incorrect number of arguments"));
}

#[test]
fn only_functions_are_called() {
    let diagnostics = errors(
        r#"
        comp main = fn() -> i64 {
            let value = 3;
            return value(1);
        };
        "#,
    );
    assert!(diagnostics.iter().any(|d| d.message == "Expression is not callable"));
}

#[test]
fn a_call_has_its_function_return_type() {
    let diagnostics = errors(
        r#"
        comp flag = fn() -> bool {
            return true;
        };
        comp main = fn() -> i64 {
            return flag();
        };
        "#,
    );
    assert!(diagnostics.iter().any(|d| d.message == "Call result has the wrong type"));
}
