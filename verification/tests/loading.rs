use flang::diagnostics::Diagnostic;
use flang::imports::{relative_import_path, LoadedProgram};
use flang::loader::{ImportLoader, LoaderRequest};
use flang::source::{SourceFileManager, SourceId, Span};

/// Joins a relative path to the directory of `importing`, folding `.` and `..`.
fn joined(importing: &str, relative: &str) -> String {
    let mut parts: Vec<&str> = importing.split('/').collect();
    parts.pop();
    for part in relative.split('/') {
        match part {
            "." | "" => {}
            ".." => {
                parts.pop();
            }
            other => parts.push(other),
        }
    }
    parts.join("/")
}

/// Loads the program whose entry file is `entry_path` from in-memory files,
/// answering the loader's requests as the file system would.
fn load(files: &[(&str, &str)], entry_path: &str) -> (SourceFileManager, SourceId, Result<LoadedProgram, Vec<Diagnostic>>, usize) {
    let text_of = |path: &str| files.iter().find(|(name, _)| *name == path).map(|(_, text)| text.to_string());
    let mut sources = SourceFileManager::new();
    let entry = sources.add_file(entry_path.to_owned(), text_of(entry_path).expect("the entry file exists"));
    let (mut loader, mut request) = ImportLoader::start(&sources, entry, entry_path.to_owned());
    let mut reads = 0;
    let outcome = loop {
        request = match request {
            LoaderRequest::Resolve { import } => {
                let literal: Vec<char> = sources.span_text(import).chars().collect();
                let relative: String = relative_import_path(&literal).expect("a relative path").into_iter().collect();
                let importing = sources.get_file(import.source).name().to_owned();
                let path = joined(&importing, &relative);
                let outcome = match text_of(&path) {
                    Some(_) => Ok(path),
                    None => Err(Diagnostic::error("Cannot resolve import".to_owned(), import, format!("Cannot resolve `{path}`"))),
                };
                loader.resolved(outcome)
            }
            LoaderRequest::Read { path, import: _ } => {
                reads += 1;
                let text = text_of(&path).expect("a resolved file exists");
                let id = sources.add_file(path, text);
                loader.read(&sources, Ok(id))
            }
            LoaderRequest::Done(program) => break Ok(program),
            LoaderRequest::Failed(diagnostics) => break Err(diagnostics),
        };
    };
    (sources, entry, outcome, reads)
}

#[test]
fn loads_a_dependency_only_once() {
    let (sources, entry, outcome, reads) = load(
        &[
            (
                "/project/main.fl",
                r#"
          comp first = @import("./library.fl");
          comp second = @import("./library.fl");
      "#,
            ),
            ("/project/library.fl", "pub comp answer = 42;"),
        ],
        "/project/main.fl",
    );
    let loaded = match outcome {
        Ok(loaded) => loaded,
        Err(diagnostics) => panic!("imports should load: {diagnostics:#?}"),
    };
    assert_eq!(reads, 1);
    assert_eq!(sources.files().len(), 2);
    assert_eq!(loaded.modules.len(), 2);
    assert_eq!(loaded.imports.len(), 2);
    assert_eq!(loaded.imports[0].target, loaded.imports[1].target);
    assert_eq!(loaded.modules.last().expect("entry module").source, entry);
}

#[test]
fn nested_imports_share_one_dependency() {
    let (sources, entry, outcome, _) = load(
        &[
            (
                "/project/main.fl",
                r#"
          comp left = @import("./nested/left.fl");
          comp right = @import("./right.fl");
      "#,
            ),
            ("/project/nested/left.fl", r#"comp shared = @import("../shared.fl");"#),
            ("/project/right.fl", r#"comp shared = @import("./shared.fl");"#),
            ("/project/shared.fl", "pub comp answer = 42;"),
        ],
        "/project/main.fl",
    );
    let loaded = match outcome {
        Ok(loaded) => loaded,
        Err(diagnostics) => panic!("dependency graph should load: {diagnostics:#?}"),
    };
    assert_eq!(sources.files().len(), 4);
    assert_eq!(loaded.modules.len(), 4);
    assert_eq!(loaded.imports.len(), 4);
    let shared_targets: Vec<SourceId> = loaded
        .imports
        .iter()
        .filter(|import| matches!(sources.span_text(import.path).as_str(), "\"../shared.fl\"" | "\"./shared.fl\""))
        .map(|import| import.target)
        .collect();
    assert_eq!(shared_targets.len(), 2);
    assert_eq!(shared_targets[0], shared_targets[1]);
    assert_eq!(loaded.modules.last().expect("entry module").source, entry);
}

#[test]
fn rejects_import_cycle() {
    let (_, _, outcome, _) = load(
        &[
            ("/project/main.fl", r#"comp other = @import("./other.fl");"#),
            ("/project/other.fl", r#"comp entry = @import("./main.fl");"#),
        ],
        "/project/main.fl",
    );
    let diagnostics = match outcome {
        Ok(_) => panic!("cycle should be rejected"),
        Err(diagnostics) => diagnostics,
    };
    assert!(diagnostics.iter().any(|diagnostic| diagnostic.message == "Import cycle"));
}

#[test]
fn modules_come_after_the_modules_they_import() {
    let (sources, _, outcome, _) = load(
        &[
            ("/project/main.fl", r#"comp a = @import("./a.fl");"#),
            ("/project/a.fl", r#"comp b = @import("./b.fl");"#),
            ("/project/b.fl", "pub comp answer = 42;"),
        ],
        "/project/main.fl",
    );
    let loaded = match outcome {
        Ok(loaded) => loaded,
        Err(diagnostics) => panic!("imports should load: {diagnostics:#?}"),
    };
    let names: Vec<&str> = loaded.modules.iter().map(|module| sources.get_file(module.source).name().as_str()).collect();
    assert_eq!(names, vec!["/project/b.fl", "/project/a.fl", "/project/main.fl"]);
}

#[test]
fn an_unresolved_import_fails_loading_with_its_diagnostic() {
    let (sources, entry, outcome, _) = load(&[("/project/main.fl", r#"comp m = @import("./missing.fl");"#)], "/project/main.fl");
    let diagnostics = match outcome {
        Ok(_) => panic!("a missing import should fail"),
        Err(diagnostics) => diagnostics,
    };
    assert_eq!(diagnostics.len(), 1);
    assert_eq!(diagnostics[0].message, "Cannot resolve import");
    let span: Span = diagnostics[0].primary.span;
    assert_eq!(span.source, entry);
    assert_eq!(sources.span_text(span), r#""./missing.fl""#);
}
