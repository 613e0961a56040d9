use flang::imports::{collect_imports, relative_import_path};
use flang::parser::Parser;
use flang::source::SourceFileManager;
use flang::tokenizer::Tokenizer;

#[test]
fn discovers_top_level_and_nested_imports() {
    let mut sources = SourceFileManager::new();

    let id = sources.add_file(
        "main.fl".to_owned(),
        r#"
              comp library = @import("./library.fl");

              comp main = fn() -> i64 {
                  if false {
                      return @import("./unused.fl").answer;
                  }

                  return @import("./other.fl").answer;
              };
              "#
        .to_owned(),
    );

    let source = sources.get_file(id);
    let tokens = match Tokenizer::new(source).tokenize() {
        Ok(tokens) => tokens,
        Err(_) => panic!("tokenization should succeed"),
    };

    let program = match Parser::new(source, &tokens).parse() {
        Ok(program) => program,
        Err(diagnostics) => panic!("parsing should succeed: {diagnostics:#?}"),
    };

    let imports = collect_imports(&program);

    let paths: Vec<_> = imports.iter().map(|span| sources.span_text(*span)).collect();

    assert_eq!(paths, vec![r#""./library.fl""#, r#""./unused.fl""#, r#""./other.fl""#,],);

    assert!(imports.iter().all(|span| span.source == id));
}

fn path_of(literal: &str) -> Option<String> {
    let chars: Vec<char> = literal.chars().collect();
    relative_import_path(&chars).map(|path| path.into_iter().collect())
}

#[test]
fn relative_import_paths_lose_their_quotes() {
    assert_eq!(path_of(r#""./library.fl""#), Some("./library.fl".to_owned()));
    assert_eq!(path_of(r#""../library.fl""#), Some("../library.fl".to_owned()));
}

#[test]
fn other_import_paths_are_not_supported() {
    assert_eq!(path_of(r#""library.fl""#), None);
    assert_eq!(path_of(r#""/etc/library.fl""#), None);
    assert_eq!(path_of(r#""""#), None);
    assert_eq!(path_of(r#"".""#), None);
}
