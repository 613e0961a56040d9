use flang::diagnostics::Diagnostic;
use flang::source::{SourceFile, SourceId};
use flang::token::TokenKind;
use flang::tokenizer::Tokenizer;

fn source(text: &str) -> SourceFile {
    SourceFile::new(SourceId(0), "test.fl".to_owned(), text.to_owned())
}

fn assert_single_string(input: &str, expected_contents: &str) {
    let source = source(input);
    let tokens = match Tokenizer::new(&source).tokenize() {
        Ok(tokens) => tokens,
        Err(diagnostics) => panic!("tokenization should succeed: {diagnostics:#?}"),
    };

    assert_eq!(tokens.len(), 1);
    assert_eq!(tokens[0].kind, TokenKind::StringLiteral);
    assert_eq!(source.span_text(tokens[0].span), input);

    let complete_literal: Vec<char> = source.span_text(tokens[0].span).chars().collect();
    let contents: String = complete_literal[1..complete_literal.len() - 1].iter().collect();

    assert_eq!(contents, expected_contents);
}

fn tokenize_error(input: &str) -> (SourceFile, Vec<Diagnostic>) {
    let source = source(input);
    let diagnostics = match Tokenizer::new(&source).tokenize() {
        Ok(_) => panic!("tokenization should fail"),
        Err(diagnostics) => diagnostics,
    };

    (source, diagnostics)
}

#[test]
fn tokenizes_ascii_string_literal() {
    assert_single_string("\"getchar\"", "getchar");
}

#[test]
fn tokenizes_empty_string_literal() {
    assert_single_string("\"\"", "");
}

#[test]
fn tokenizes_utf8_string_literal() {
    assert_single_string("\"héllo 世界\"", "héllo 世界");
}

#[test]
fn tokenizes_adjacent_string_literals() {
    let source = source("\"a\" \"b\"");
    let tokens = match Tokenizer::new(&source).tokenize() {
        Ok(tokens) => tokens,
        Err(_) => panic!("tokenization should succeed"),
    };

    assert_eq!(tokens.len(), 2);
    assert_eq!(tokens[0].kind, TokenKind::StringLiteral);
    assert_eq!(tokens[1].kind, TokenKind::StringLiteral);
    assert_eq!(source.span_text(tokens[0].span), "\"a\"");
    assert_eq!(source.span_text(tokens[1].span), "\"b\"");
}

#[test]
fn rejects_backslash_in_string_literal() {
    let (source, diagnostics) = tokenize_error("\"é\\\"");

    assert_eq!(diagnostics.len(), 1);
    assert_eq!(diagnostics[0].message, "Unsupported character in string literal");
    assert_eq!(source.span_text(diagnostics[0].primary.span), "\\");
}

#[test]
fn rejects_newline_in_string_literal() {
    let (source, diagnostics) = tokenize_error("\"first\nsecond\"");

    assert_eq!(diagnostics.len(), 1);
    assert_eq!(source.span_text(diagnostics[0].primary.span), "\n");
}

#[test]
fn rejects_unterminated_string_literal() {
    let (_source, diagnostics) = tokenize_error("\"unfinished");

    assert_eq!(diagnostics.len(), 1);
    assert_eq!(diagnostics[0].message, "Unterminated string literal");
}

#[test]
fn tokenizes_keywords_operators_and_numbers() {
    let source = source("comp x = 4usize * 2 <= y;");
    let tokens = match Tokenizer::new(&source).tokenize() {
        Ok(tokens) => tokens,
        Err(_) => panic!("tokenization should succeed"),
    };
    let kinds: Vec<TokenKind> = tokens.iter().map(|token| token.kind).collect();
    assert_eq!(
        kinds,
        vec![
            TokenKind::Comp,
            TokenKind::Identifier,
            TokenKind::Eq,
            TokenKind::NumberLiteral,
            TokenKind::Star,
            TokenKind::NumberLiteral,
            TokenKind::LessThanOrEqual,
            TokenKind::Identifier,
            TokenKind::Semi,
        ]
    );
    assert_eq!(source.span_text(tokens[3].span), "4usize");
}

#[test]
fn tokens_appear_in_order_without_overlap() {
    let source = source("comp main = fn() -> i64 { return 6; };");
    let tokens = match Tokenizer::new(&source).tokenize() {
        Ok(tokens) => tokens,
        Err(_) => panic!("tokenization should succeed"),
    };
    for pair in tokens.windows(2) {
        assert!(pair[0].span.start < pair[0].span.end);
        assert!(pair[0].span.end <= pair[1].span.start);
    }
    assert!(tokens.last().unwrap().span.end <= source.len());
}
