use flang::diagnostics::Diagnostic;
use flang::driver::compile;
use flang::elaboration::ElaboratedProgram;
use flang::source::SourceFileManager;
use flang::types::TargetInfo;

fn compile_text(text: &str) -> Result<ElaboratedProgram, Vec<Diagnostic>> {
    let mut sources = SourceFileManager::new();
    let id = sources.add_file("<test>".to_owned(), text.to_owned());
    compile(&sources, id, TargetInfo::native())
}

fn assert_compile_error(source: &str, expected: &str) {
    let diagnostics = match compile_text(source) {
        Ok(_) => panic!("expected compilation to fail"),
        Err(diagnostics) => diagnostics,
    };
    assert!(
        diagnostics.iter().any(|diagnostic| {
            diagnostic.message.contains(expected) || diagnostic.primary.text.contains(expected)
        }),
        "expected an error containing {expected:?}, got:\n{diagnostics:#?}",
    );
}

#[test]
fn rejects_empty_return_from_i64_function() {
    assert_compile_error(
            r#"
            comp main = fn() -> i64 {
                return;
            };
            "#,
            "Return without value",
        );
}

#[test]
fn rejects_unknown_return_type() {
    assert_compile_error(
            r#"
            comp main = fn() -> mystery {
                return 6;
            };
            "#,
            "Unknown Type",
        );
}

#[test]
fn binding_requires_trailing_semicolon() {
    assert_compile_error(
            r#"
            comp main = fn() -> i64 {
                return 6;
            }
            "#,
            "expected `;` after binding",
        );
}

#[test]
fn comptime_division_by_zero() {
    assert_compile_error(
            r#"
            comp test = 5 / 0;

            comp main = fn() -> i64 {
                return test;
            };
            "#,
            "Division by zero",
        );
}

#[test]
fn comptime_overflow() {
    assert_compile_error(
            r#"
            comp overflowed = 9223372036854775806 + 2;

            comp main = fn() -> i64 {
                return overflowed;
            };
            "#,
            "overflow",
        );
}

#[test]
fn rejects_non_boolean_if_condition() {
    assert_compile_error(
            r#"
        comp main = fn() -> i64 {
            if 42 {
                return 1;
            } else {
                return 2;
            }
        };
        "#,
            "Type mismatch",
        );
}

#[test]
fn branch_local_binding_does_not_escape() {
    assert_compile_error(
            r#"
        comp main = fn() -> i64 {
            if true {
                let answer = 42;
            }

            return answer;
        };
        "#,
            "Identifier not bound",
        );
}

#[test]
fn rejects_string_where_integer_is_expected() {
    assert_compile_error(
            r#"
          comp invalid = fn() -> i64 {
              return "putchar";
          };

          comp main = fn() -> i64 {
              return 0;
          };
          "#,
            "Type mismatch",
        );
}

#[test]
fn rejects_string_in_runtime_local() {
    assert_compile_error(
            r#"
          comp main = fn() -> i64 {
              let symbol = "putchar";
              return 0;
          };
          "#,
            "`str` has no runtime representation",
        );
}

#[test]
fn rejects_string_runtime_parameter() {
    assert_compile_error(
            r#"
          comp invalid = fn(symbol: str) -> i64 {
              return 0;
          };

          comp main = fn() -> i64 {
              return 0;
          };
          "#,
            "`str` has no runtime representation",
        );
}

#[test]
fn rejects_string_runtime_return_type() {
    assert_compile_error(
            r#"
          comp invalid = fn() -> str {
              return "putchar";
          };

          comp main = fn() -> i64 {
              return 0;
          };
          "#,
            "`str` has no runtime representation",
        );
}

#[test]
fn rejects_string_runtime_parameter_after_specialization() {
    assert_compile_error(
            r#"
          comp invalid = fn<tag: i64>(symbol: str) -> i64 {
              return tag;
          };

          comp main = fn() -> i64 {
              return invalid<1>("putchar");
          };
          "#,
            "`str` has no runtime representation",
        );
}

#[test]
fn rejects_function_type_value_where_integer_is_expected() {
    assert_compile_error(
            r#"
          comp invalid = fn() -> i64 {
              return fn(i32) -> i64;
          };

          comp main = fn() -> i64 {
              return 0;
          };
          "#,
            "Type mismatch",
        );
}

#[test]
fn rejects_type_value_in_runtime_local() {
    assert_compile_error(
            r#"
          comp main = fn() -> i64 {
              let Signature = fn(i32) -> i64;
              return 0;
          };
          "#,
            "`type` has no runtime representation",
        );
}

#[test]
fn rejects_type_as_runtime_parameter() {
    assert_compile_error(
            r#"
          comp invalid = fn(Signature: type) -> i64 {
              return 0;
          };

          comp main = fn() -> i64 {
              return 0;
          };
          "#,
            "`type` has no runtime representation",
        );
}

#[test]
fn rejects_type_as_runtime_return() {
    assert_compile_error(
            r#"
          comp invalid = fn() -> type {
              return fn(i32) -> i64;
          };

          comp main = fn() -> i64 {
              return 0;
          };
          "#,
            "`type` has no runtime representation",
        );
}

#[test]
fn rejects_too_few_extern_arguments() {
    assert_compile_error(
            r#"
          comp f = @extern<"C", "getchar">;
          "#,
            "Incorrect number of arguments to `@extern`",
        );
}

#[test]
fn rejects_too_many_extern_arguments() {
    assert_compile_error(
            r#"
          comp f = @extern<
              "C",
              "getchar",
              fn() -> i32,
              "extra"
          >;
          "#,
            "Incorrect number of arguments to `@extern`",
        );
}

#[test]
fn rejects_non_string_extern_abi() {
    assert_compile_error(
            r#"
          comp f = @extern<true, "getchar", fn() -> i32>;
          "#,
            "Type mismatch",
        );
}

#[test]
fn rejects_non_string_extern_link_name() {
    assert_compile_error(
            r#"
          comp f = @extern<"C", 123, fn() -> i32>;
          "#,
            "Type mismatch",
        );
}

#[test]
fn rejects_non_type_extern_signature() {
    assert_compile_error(
            r#"
          comp f = @extern<"C", "getchar", 123>;
          "#,
            "Type mismatch",
        );
}

#[test]
fn rejects_non_function_extern_type() {
    assert_compile_error(
            r#"
          comp f = @extern<"C", "getchar", i32>;
          "#,
            "Invalid external function type",
        );
}

#[test]
fn rejects_unsupported_external_abi() {
    assert_compile_error(
            r#"
          comp f = @extern<"Rust", "getchar", fn() -> i32>;
          "#,
            "Unsupported external ABI",
        );
}

#[test]
fn rejects_unknown_specialized_intrinsic() {
    assert_compile_error(
            r#"
          comp f = @whatever<"C">;
          "#,
            "Unknown intrinsic",
        );
}

#[test]
fn rejects_suffix_that_differs_from_the_annotation() {
    assert_compile_error(
        r#"
        comp small: i32 = 5u8;
        comp main = fn() -> i64 { return 0; };
        "#,
        "Integer type mismatch",
    );
}

#[test]
fn rejects_value_name_used_as_type() {
    assert_compile_error(
        r#"
        comp width = 3;
        comp main = fn() -> width { return 0; };
        "#,
        "Expected a Type found a Value",
    );
}
