//! The tokenizer: cuts the characters of a source file into tokens.

use vstd::prelude::*;
use crate::diagnostics::{Diagnostic, DiagnosticView, diagnostics_view, error_view};
use crate::source::{SourceFile, SourceId, Span, string_from_chars};
use crate::token::{Token, TokenKind, display_text};

verus! {

// ---------------------------------------------------------------------------
// Character classes, as Rust's ASCII predicates define them.

pub open spec fn is_digit(c: char) -> bool {
    '0' <= c && c <= '9'
}

pub open spec fn is_alpha(c: char) -> bool {
    ('a' <= c && c <= 'z') || ('A' <= c && c <= 'Z')
}

pub open spec fn is_alnum(c: char) -> bool {
    is_digit(c) || is_alpha(c)
}

/// Characters that may continue an identifier.
pub open spec fn is_ident_char(c: char) -> bool {
    is_alnum(c) || c == '_'
}

/// ASCII whitespace: space, tab, line feed, form feed and carriage return.
pub open spec fn is_space(c: char) -> bool {
    c == ' ' || c == '\t' || c == '\n' || c == '\x0C' || c == '\r'
}

/// Characters that a string literal may not contain.
pub open spec fn is_unsupported_in_string(c: char) -> bool {
    c == '\n' || c == '\\'
}

// ---------------------------------------------------------------------------
// The lexical grammar, as spec functions over the characters of a file.

/// The end of the run of digits that starts at `i`.
pub open spec fn digit_run_end(text: Seq<char>, i: int) -> int
    decreases text.len() - i,
{
    if 0 <= i < text.len() && is_digit(text[i]) { digit_run_end(text, i + 1) } else { i }
}

/// The end of the run of letters and digits that starts at `i`.
pub open spec fn alnum_run_end(text: Seq<char>, i: int) -> int
    decreases text.len() - i,
{
    if 0 <= i < text.len() && is_alnum(text[i]) { alnum_run_end(text, i + 1) } else { i }
}

/// The end of the run of identifier characters that starts at `i`.
pub open spec fn ident_run_end(text: Seq<char>, i: int) -> int
    decreases text.len() - i,
{
    if 0 <= i < text.len() && is_ident_char(text[i]) { ident_run_end(text, i + 1) } else { i }
}

/// The keyword that a word spells, if it spells one.
pub open spec fn keyword_kind(word: Seq<char>) -> Option<TokenKind> {
    if word == seq!['f', 'n'] {
        Some(TokenKind::Fn)
    } else if word == seq!['i', 'f'] {
        Some(TokenKind::If)
    } else if word == seq!['l', 'e', 't'] {
        Some(TokenKind::Let)
    } else if word == seq!['m', 'u', 't'] {
        Some(TokenKind::Mut)
    } else if word == seq!['p', 'u', 'b'] {
        Some(TokenKind::Pub)
    } else if word == seq!['e', 'l', 's', 'e'] {
        Some(TokenKind::Else)
    } else if word == seq!['c', 'o', 'm', 'p'] {
        Some(TokenKind::Comp)
    } else if word == seq!['t', 'r', 'u', 'e'] {
        Some(TokenKind::True)
    } else if word == seq!['f', 'a', 'l', 's', 'e'] {
        Some(TokenKind::False)
    } else if word == seq!['w', 'h', 'i', 'l', 'e'] {
        Some(TokenKind::While)
    } else if word == seq!['r', 'e', 't', 'u', 'r', 'n'] {
        Some(TokenKind::Return)
    } else {
        None
    }
}

/// Law: a keyword is the word that spells it.
pub proof fn law_keyword_spelled(word: Seq<char>)
    requires
        keyword_kind(word) is Some,
    ensures
        word == display_text(keyword_kind(word)->0),
{
    reveal_strlit("fn");
    reveal_strlit("if");
    reveal_strlit("let");
    reveal_strlit("mut");
    reveal_strlit("pub");
    reveal_strlit("else");
    reveal_strlit("comp");
    reveal_strlit("true");
    reveal_strlit("false");
    reveal_strlit("while");
    reveal_strlit("return");
    reveal_strlit("@");
    reveal_strlit("=");
    reveal_strlit(".");
    reveal_strlit("==");
    reveal_strlit(";");
    reveal_strlit("+");
    reveal_strlit("*");
    reveal_strlit("!");
    reveal_strlit("-");
    reveal_strlit("/");
    reveal_strlit(",");
    reveal_strlit(":");
    reveal_strlit("->");
    reveal_strlit("{");
    reveal_strlit("}");
    reveal_strlit("(");
    reveal_strlit(")");
    reveal_strlit("[");
    reveal_strlit("]");
    reveal_strlit("!=");
    reveal_strlit("+=");
    reveal_strlit("*=");
    reveal_strlit("-=");
    reveal_strlit("/=");
    reveal_strlit("<");
    reveal_strlit("<=");
    reveal_strlit(">");
    reveal_strlit(">=");
    assert(word =~= display_text(keyword_kind(word)->0));
}

/// Law: a symbol token is the characters that spell it.
pub proof fn law_symbol_spelled(text: Seq<char>, i: int)
    requires
        0 <= i < text.len(),
        symbol_token(text, i) is Some,
    ensures
        symbol_token(text, i) matches Some((kind, n)) && i + n <= text.len()
            && text.subrange(i, i + n) == display_text(kind),
{
    reveal_strlit("fn");
    reveal_strlit("if");
    reveal_strlit("let");
    reveal_strlit("mut");
    reveal_strlit("pub");
    reveal_strlit("else");
    reveal_strlit("comp");
    reveal_strlit("true");
    reveal_strlit("false");
    reveal_strlit("while");
    reveal_strlit("return");
    reveal_strlit("@");
    reveal_strlit("=");
    reveal_strlit(".");
    reveal_strlit("==");
    reveal_strlit(";");
    reveal_strlit("+");
    reveal_strlit("*");
    reveal_strlit("!");
    reveal_strlit("-");
    reveal_strlit("/");
    reveal_strlit(",");
    reveal_strlit(":");
    reveal_strlit("->");
    reveal_strlit("{");
    reveal_strlit("}");
    reveal_strlit("(");
    reveal_strlit(")");
    reveal_strlit("[");
    reveal_strlit("]");
    reveal_strlit("!=");
    reveal_strlit("+=");
    reveal_strlit("*=");
    reveal_strlit("-=");
    reveal_strlit("/=");
    reveal_strlit("<");
    reveal_strlit("<=");
    reveal_strlit(">");
    reveal_strlit(">=");
    let (kind, n) = symbol_token(text, i)->0;
    assert(text.subrange(i, i + n) =~= display_text(kind));
}

/// The token kind of a single-character symbol.
pub open spec fn single_symbol_kind(c: char) -> Option<TokenKind> {
    if c == '(' {
        Some(TokenKind::LParen)
    } else if c == ')' {
        Some(TokenKind::RParen)
    } else if c == '{' {
        Some(TokenKind::LCurly)
    } else if c == '}' {
        Some(TokenKind::RCurly)
    } else if c == '[' {
        Some(TokenKind::LBrack)
    } else if c == ']' {
        Some(TokenKind::RBrack)
    } else if c == ';' {
        Some(TokenKind::Semi)
    } else if c == ',' {
        Some(TokenKind::Comma)
    } else if c == ':' {
        Some(TokenKind::Colon)
    } else if c == '@' {
        Some(TokenKind::At)
    } else if c == '.' {
        Some(TokenKind::Dot)
    } else {
        None
    }
}

/// The symbol token that starts at `i`, with its length in characters:
/// a symbol that may be followed by `=` (or `-` by `>`) takes the longer form
/// when the next character allows it.
pub open spec fn symbol_token(text: Seq<char>, i: int) -> Option<(TokenKind, int)> {
    let c = text[i];
    let next_is = |d: char| i + 1 < text.len() && text[i + 1] == d;
    if single_symbol_kind(c) is Some {
        Some((single_symbol_kind(c)->0, 1))
    } else if c == '+' {
        if next_is('=') { Some((TokenKind::PlusEq, 2)) } else { Some((TokenKind::Plus, 1)) }
    } else if c == '-' {
        if next_is('>') {
            Some((TokenKind::RArrow, 2))
        } else if next_is('=') {
            Some((TokenKind::MinusEq, 2))
        } else {
            Some((TokenKind::Minus, 1))
        }
    } else if c == '*' {
        if next_is('=') { Some((TokenKind::StarEq, 2)) } else { Some((TokenKind::Star, 1)) }
    } else if c == '/' {
        if next_is('=') { Some((TokenKind::SlashEq, 2)) } else { Some((TokenKind::Slash, 1)) }
    } else if c == '=' {
        if next_is('=') { Some((TokenKind::EqEq, 2)) } else { Some((TokenKind::Eq, 1)) }
    } else if c == '!' {
        if next_is('=') { Some((TokenKind::BangEq, 2)) } else { Some((TokenKind::Bang, 1)) }
    } else if c == '<' {
        if next_is('=') {
            Some((TokenKind::LessThanOrEqual, 2))
        } else {
            Some((TokenKind::LessThan, 1))
        }
    } else if c == '>' {
        if next_is('=') {
            Some((TokenKind::GreaterThanOrEqual, 2))
        } else {
            Some((TokenKind::GreaterThan, 1))
        }
    } else {
        None
    }
}

/// The kind of the two-character symbol that the character after `i` forms,
/// taking the first of `chars` (from the `j`-th on) that matches it.
pub open spec fn second_choice(text: Seq<char>, i: int, chars: Seq<char>, kinds: Seq<TokenKind>, j: int) -> Option<TokenKind>
    decreases chars.len() - j,
{
    if j < 0 || j >= chars.len() {
        None
    } else if i + 1 < text.len() && text[i + 1] == chars[j] {
        Some(kinds[j])
    } else {
        second_choice(text, i, chars, kinds, j + 1)
    }
}

/// The message of the error for a character that starts no token.
pub open spec fn unexpected_character_message(c: char) -> Seq<char> {
    "Unexpected character '"@ + seq![c] + "'"@
}

/// The label of the error for a character that a string literal may not hold.
pub open spec fn unsupported_character_label(c: char) -> Seq<char> {
    seq![c] + " is not supported"@
}

/// Scans the body of a string literal from `j`: where it ends (at the closing
/// quote or at the end of the file) and the errors for the characters in it
/// that a string literal may not hold.
pub open spec fn string_scan(text: Seq<char>, source: SourceId, j: int) -> (int, Seq<DiagnosticView>)
    decreases text.len() - j,
{
    if j < 0 || j >= text.len() || text[j] == '"' {
        (j, Seq::empty())
    } else {
        let (end, rest) = string_scan(text, source, j + 1);
        let here = if is_unsupported_in_string(text[j]) {
            seq![error_view(
                "Unsupported character in string literal"@,
                Span { source, start: j as usize, end: (j + 1) as usize },
                unsupported_character_label(text[j]),
            )]
        } else {
            Seq::empty()
        };
        (end, here + rest)
    }
}

/// The token, the errors and the position after one step of the tokenizer at `i`.
pub struct LexStep {
    pub token: Option<Token>,
    pub errors: Seq<DiagnosticView>,
    pub next: int,
}

/// A token of the given kind from `start` to `end`.
pub open spec fn token_at(source: SourceId, kind: TokenKind, start: int, end: int) -> Token {
    Token { span: Span { source, start: start as usize, end: end as usize }, kind }
}

/// One step of the tokenizer at position `i < text.len()`.
pub open spec fn lex_step(text: Seq<char>, source: SourceId, i: int) -> LexStep {
    let c = text[i];
    if symbol_token(text, i) is Some {
        let (kind, n) = symbol_token(text, i)->0;
        LexStep { token: Some(token_at(source, kind, i, i + n)), errors: Seq::empty(), next: i + n }
    } else if is_digit(c) {
        let end = alnum_run_end(text, digit_run_end(text, i));
        LexStep { token: Some(token_at(source, TokenKind::NumberLiteral, i, end)), errors: Seq::empty(), next: end }
    } else if is_alpha(c) {
        let end = ident_run_end(text, i);
        let kind = match keyword_kind(text.subrange(i, end)) {
            Some(k) => k,
            None => TokenKind::Identifier,
        };
        LexStep { token: Some(token_at(source, kind, i, end)), errors: Seq::empty(), next: end }
    } else if is_space(c) {
        LexStep { token: None, errors: Seq::empty(), next: i + 1 }
    } else if c == '"' {
        let (end, errors) = string_scan(text, source, i + 1);
        if end >= text.len() {
            LexStep {
                token: Some(token_at(source, TokenKind::StringLiteral, i, end)),
                errors: errors.push(error_view(
                    "Unterminated string literal"@,
                    Span { source, start: end as usize, end: end as usize },
                    ":("@,
                )),
                next: end,
            }
        } else {
            LexStep {
                token: Some(token_at(source, TokenKind::StringLiteral, i, end + 1)),
                errors,
                next: end + 1,
            }
        }
    } else {
        LexStep {
            token: None,
            errors: seq![error_view(
                unexpected_character_message(c),
                Span { source, start: i as usize, end: (i + 1) as usize },
                "Evil :("@,
            )],
            next: i + 1,
        }
    }
}

/// The tokens and errors of the text from position `i` on.
pub open spec fn lex_from(text: Seq<char>, source: SourceId, i: int) -> (Seq<Token>, Seq<DiagnosticView>)
    decreases text.len() - i,
{
    if i < 0 || i >= text.len() {
        (Seq::empty(), Seq::empty())
    } else {
        let step = lex_step(text, source, i);
        if step.next <= i || step.next > text.len() {
            (Seq::empty(), Seq::empty())
        } else {
            let (tokens, errors) = lex_from(text, source, step.next);
            let here = match step.token {
                Some(t) => seq![t],
                None => Seq::empty(),
            };
            (here + tokens, step.errors + errors)
        }
    }
}

/// The tokens and errors of a whole file.
pub open spec fn lex(text: Seq<char>, source: SourceId) -> (Seq<Token>, Seq<DiagnosticView>) {
    lex_from(text, source, 0)
}

/// What tokenizing a file gives: its tokens when it holds no lexical error,
/// otherwise all its errors in the order they occur.
pub open spec fn tokenize_result(
    text: Seq<char>,
    source: SourceId,
    result: Result<Vec<Token>, Vec<Diagnostic>>,
) -> bool {
    let (tokens, errors) = lex(text, source);
    match result {
        Ok(found) => errors.len() == 0 && found@ == tokens,
        Err(diagnostics) => errors.len() > 0 && diagnostics_view(diagnostics@) == errors,
    }
}

// ---------------------------------------------------------------------------
// Facts about the lexical grammar.

proof fn lemma_digit_run(text: Seq<char>, i: int)
    requires
        0 <= i <= text.len(),
    ensures
        i <= digit_run_end(text, i) <= text.len(),
        forall|k: int| i <= k < digit_run_end(text, i) ==> is_digit(#[trigger] text[k]),
    decreases text.len() - i,
{
    if i < text.len() && is_digit(text[i]) {
        lemma_digit_run(text, i + 1);
    }
}

proof fn lemma_alnum_run(text: Seq<char>, i: int)
    requires
        0 <= i <= text.len(),
    ensures
        i <= alnum_run_end(text, i) <= text.len(),
        forall|k: int| i <= k < alnum_run_end(text, i) ==> is_alnum(#[trigger] text[k]),
    decreases text.len() - i,
{
    if i < text.len() && is_alnum(text[i]) {
        lemma_alnum_run(text, i + 1);
    }
}

proof fn lemma_ident_run(text: Seq<char>, i: int)
    requires
        0 <= i <= text.len(),
    ensures
        i <= ident_run_end(text, i) <= text.len(),
        forall|k: int| i <= k < ident_run_end(text, i) ==> is_ident_char(#[trigger] text[k]),
    decreases text.len() - i,
{
    if i < text.len() && is_ident_char(text[i]) {
        lemma_ident_run(text, i + 1);
    }
}

proof fn lemma_string_scan(text: Seq<char>, source: SourceId, j: int)
    requires
        0 <= j <= text.len(),
    ensures
        j <= string_scan(text, source, j).0 <= text.len(),
        string_scan(text, source, j).0 < text.len() ==> text[string_scan(text, source, j).0] == '"',
        forall|k: int| j <= k < string_scan(text, source, j).0 ==> #[trigger] text[k] != '"',
    decreases text.len() - j,
{
    if j < text.len() && text[j] != '"' {
        lemma_string_scan(text, source, j + 1);
    }
}

/// Every step of the tokenizer moves forward and stays within the text.
proof fn lemma_lex_step_advances(text: Seq<char>, source: SourceId, i: int)
    requires
        0 <= i < text.len(),
    ensures
        i < lex_step(text, source, i).next <= text.len(),
{
    lemma_digit_run(text, i);
    lemma_alnum_run(text, digit_run_end(text, i));
    lemma_ident_run(text, i);
    lemma_string_scan(text, source, i + 1);
    if is_digit(text[i]) {
        lemma_digit_run(text, i + 1);
        assert(digit_run_end(text, i) == digit_run_end(text, i + 1));
    }
    if is_alpha(text[i]) {
        lemma_ident_run(text, i + 1);
        assert(ident_run_end(text, i) == ident_run_end(text, i + 1));
    }
}

/// Unfolds the tokens and errors from position `i` by one step.
proof fn lemma_lex_from_unfold(text: Seq<char>, source: SourceId, i: int)
    requires
        0 <= i < text.len(),
    ensures
        ({
            let step = lex_step(text, source, i);
            let here = match step.token {
                Some(t) => seq![t],
                None => Seq::<Token>::empty(),
            };
            lex_from(text, source, i) == (
                here + lex_from(text, source, step.next).0,
                step.errors + lex_from(text, source, step.next).1,
            )
        }),
{
    lemma_lex_step_advances(text, source, i);
}

/// The tokens lie in `lo..=hi` of the file, each covering at least one
/// character, in order and without overlap, all in the given file.
pub open spec fn tokens_in_order(tokens: Seq<Token>, source: SourceId, lo: int, hi: int) -> bool {
    &&& forall|k: int| 0 <= k < tokens.len() ==> {
        &&& (#[trigger] tokens[k]).span.source == source
        &&& lo <= tokens[k].span.start < tokens[k].span.end <= hi
    }
    &&& forall|k: int, l: int| 0 <= k < l < tokens.len() ==> (#[trigger] tokens[k]).span.end <= (#[trigger] tokens[l]).span.start
}

proof fn lemma_lex_from_in_order(text: Seq<char>, source: SourceId, i: int)
    requires
        0 <= i <= text.len(),
        text.len() <= usize::MAX,
    ensures
        tokens_in_order(lex_from(text, source, i).0, source, i, text.len() as int),
    decreases text.len() - i,
{
    if i < text.len() {
        let step = lex_step(text, source, i);
        lemma_lex_step_advances(text, source, i);
        lemma_lex_from_in_order(text, source, step.next);
        lemma_lex_step_token_span(text, source, i);
        let rest = lex_from(text, source, step.next).0;
        let here = match step.token {
            Some(t) => seq![t],
            None => Seq::<Token>::empty(),
        };
        let all = here + rest;
        assert(lex_from(text, source, i).0 == all);
        assert forall|k: int, l: int| 0 <= k < l < all.len() implies (#[trigger] all[k]).span.end <= (#[trigger] all[l]).span.start by {
            if here.len() == 1 && k == 0 {
                assert(all[l] == rest[l - 1]);
            } else {
                assert(all[k] == rest[k - here.len()]);
                assert(all[l] == rest[l - here.len()]);
            }
        }
        assert forall|k: int| 0 <= k < all.len() implies {
            &&& (#[trigger] all[k]).span.source == source
            &&& i <= all[k].span.start < all[k].span.end <= text.len()
        } by {
            if here.len() == 1 && k == 0 {
            } else {
                assert(all[k] == rest[k - here.len()]);
            }
        }
    }
}

/// A token made by a step covers the characters from the step's position
/// to the position after it.
proof fn lemma_lex_step_token_span(text: Seq<char>, source: SourceId, i: int)
    requires
        0 <= i < text.len(),
    ensures
        lex_step(text, source, i).token matches Some(t) ==> {
            &&& t.span.source == source
            &&& t.span.start == i as usize
            &&& t.span.end == lex_step(text, source, i).next as usize
        },
{
}

/// Law: the tokens of a file lie within it, each covering at least one
/// character, in the order of the text and without overlapping.
pub proof fn lemma_tokens_in_order(text: Seq<char>, source: SourceId)
    requires
        text.len() <= usize::MAX,
    ensures
        tokens_in_order(lex(text, source).0, source, 0, text.len() as int),
{
    lemma_lex_from_in_order(text, source, 0);
}

// ---------------------------------------------------------------------------
// Character tests.

fn is_digit_char(c: char) -> (b: bool)
    ensures
        b == is_digit(c),
{
    '0' <= c && c <= '9'
}

fn is_alpha_char(c: char) -> (b: bool)
    ensures
        b == is_alpha(c),
{
    ('a' <= c && c <= 'z') || ('A' <= c && c <= 'Z')
}

fn is_alnum_char(c: char) -> (b: bool)
    ensures
        b == is_alnum(c),
{
    is_digit_char(c) || is_alpha_char(c)
}

fn is_space_char(c: char) -> (b: bool)
    ensures
        b == is_space(c),
{
    c == ' ' || c == '\t' || c == '\n' || c == '\x0C' || c == '\r'
}

/// Whether two runs of characters are the same.
pub fn chars_equal(a: &[char], b: &[char]) -> (equal: bool)
    ensures
        equal == (a@ == b@),
{
    if a.len() != b.len() {
        return false;
    }
    let mut i: usize = 0;
    while i < a.len()
        invariant
            a@.len() == b@.len(),
            i <= a@.len(),
            forall|k: int| 0 <= k < i ==> a@[k] == b@[k],
        decreases a@.len() - i,
    {
        if a[i] != b[i] {
            return false;
        }
        i += 1;
    }
    assert(a@ =~= b@);
    true
}

/// A string holding one character.
fn char_text(c: char) -> (text: String)
    ensures
        text@ == seq![c],
{
    let chars = vec![c];
    string_from_chars(chars.as_slice())
}

// ---------------------------------------------------------------------------
// The tokenizer.

/// Cuts the characters of one source file into tokens, collecting the errors
/// it meets on the way.
pub struct Tokenizer<'src> {
    source: &'src SourceFile,
    index: usize,
    tokens: Vec<Token>,
    diagnostics: Vec<Diagnostic>,
}

impl<'src> Tokenizer<'src> {
    /// The file being tokenized.
    pub closed spec fn spec_source(&self) -> &'src SourceFile {
        self.source
    }

    /// The tokenizer has not started yet.
    pub closed spec fn is_fresh(&self) -> bool {
        self.index == 0 && self.tokens@.len() == 0 && self.diagnostics@.len() == 0
    }

    closed spec fn text(&self) -> Seq<char> {
        self.source.contents()
    }

    /// A tokenizer at the start of `source`.
    pub fn new(source: &'src SourceFile) -> (tokenizer: Tokenizer<'src>)
        ensures
            tokenizer.spec_source() == source,
            tokenizer.is_fresh(),
    {
        Tokenizer { source, index: 0, diagnostics: Vec::new(), tokens: Vec::new() }
    }

    /// Tokenizes the whole file: its tokens when it holds no lexical error,
    /// otherwise every error, in the order they occur.
    pub fn tokenize(self) -> (result: Result<Vec<Token>, Vec<Diagnostic>>)
        requires
            self.is_fresh(),
        ensures
            tokenize_result(self.spec_source().contents(), self.spec_source().spec_id(), result),
    {
        let mut this = self;
        let ghost text = this.text();
        let ghost source = this.source.spec_id();
        let len = this.source.len();
        assert(this.tokens@ + lex_from(text, source, 0).0 =~= lex(text, source).0);
        assert(diagnostics_view(this.diagnostics@) + lex_from(text, source, 0).1 =~= lex(text, source).1);
        while this.index < len
            invariant
                text == this.text(),
                source == this.source.spec_id(),
                len == text.len(),
                this.index <= len,
                lex(text, source) == (
                    this.tokens@ + lex_from(text, source, this.index as int).0,
                    diagnostics_view(this.diagnostics@) + lex_from(text, source, this.index as int).1,
                ),
            decreases len - this.index,
        {
            let ghost i = this.index as int;
            let ghost old_tokens = this.tokens@;
            let ghost old_diagnostics = diagnostics_view(this.diagnostics@);
            let ghost step = lex_step(text, source, i);
            proof {
                lemma_lex_from_unfold(text, source, i);
                lemma_lex_step_advances(text, source, i);
            }
            let next = this.source.chars()[this.index];
            let mut produced: Option<Token> = None;
            if let Some(token) = this.process_symbol_tokens() {
                produced = Some(token);
            } else if is_digit_char(next) {
                match this.tokenize_number_literal() {
                    Ok(token) => { produced = Some(token); },
                    Err(diagnostic) => { this.diagnostics.push(diagnostic); },
                }
            } else if is_alpha_char(next) {
                match this.tokenize_identifier() {
                    Ok(token) => { produced = Some(token); },
                    Err(diagnostic) => { this.diagnostics.push(diagnostic); },
                }
            } else if is_space_char(next) {
                this.next();
            } else if next == '"' {
                produced = Some(this.tokenize_string_literal());
            } else {
                let message = String::from_str("Unexpected character '")
                    .concat(char_text(next).as_str())
                    .concat("'");
                let span = this.source.span(this.index, this.index + 1);
                this.diagnostics.push(Diagnostic::error(message, span, String::from_str("Evil :(")));
                this.next();
            }
            if let Some(token) = produced {
                this.tokens.push(token);
            }
            proof {
                let here = match step.token {
                    Some(t) => seq![t],
                    None => Seq::<Token>::empty(),
                };
                assert(this.tokens@ =~= old_tokens + here);
                assert(diagnostics_view(this.diagnostics@) =~= old_diagnostics + step.errors);
                assert(this.index == step.next);
                assert(old_tokens + (here + lex_from(text, source, step.next).0)
                    =~= (old_tokens + here) + lex_from(text, source, step.next).0);
                assert(old_diagnostics + (step.errors + lex_from(text, source, step.next).1)
                    =~= (old_diagnostics + step.errors) + lex_from(text, source, step.next).1);
            }
        }
        assert(this.tokens@ + lex_from(text, source, len as int).0 =~= this.tokens@);
        assert(diagnostics_view(this.diagnostics@) + lex_from(text, source, len as int).1
            =~= diagnostics_view(this.diagnostics@));
        if this.diagnostics.len() == 0 {
            Ok(this.tokens)
        } else {
            Err(this.diagnostics)
        }
    }

    /// The two tokenizers agree on everything but the position.
    closed spec fn same_but_index(self, other: Self) -> bool {
        &&& self.source == other.source
        &&& self.tokens == other.tokens
        &&& self.diagnostics == other.diagnostics
    }

    /// Reads a symbol token at the current position, if one starts there.
    fn process_symbol_tokens(&mut self) -> (token: Option<Token>)
        requires
            old(self).index < old(self).text().len(),
        ensures
            final(self).same_but_index(*old(self)),
            match symbol_token(old(self).text(), old(self).index as int) {
                Some((kind, n)) => {
                    &&& token == Some(token_at(old(self).source.spec_id(), kind, old(self).index as int, old(self).index + n))
                    &&& final(self).index == old(self).index + n
                },
                None => token is None && final(self).index == old(self).index,
            },
    {
        let Some(next) = self.peek() else {
            return None;
        };
        let ghost text = self.text();
        let ghost i = self.index as int;
        let single_char_token_kind = if next == '(' {
            TokenKind::LParen
        } else if next == ')' {
            TokenKind::RParen
        } else if next == '{' {
            TokenKind::LCurly
        } else if next == '}' {
            TokenKind::RCurly
        } else if next == '[' {
            TokenKind::LBrack
        } else if next == ']' {
            TokenKind::RBrack
        } else if next == ';' {
            TokenKind::Semi
        } else if next == ',' {
            TokenKind::Comma
        } else if next == ':' {
            TokenKind::Colon
        } else if next == '@' {
            TokenKind::At
        } else if next == '.' {
            TokenKind::Dot
        } else if next == '+' {
            let r = self.single_or_double_tokens('+', &['='], TokenKind::Plus, &[TokenKind::PlusEq]);
            proof { reveal_with_fuel(second_choice, 2); }
            return r;
        } else if next == '-' {
            let r = self.single_or_double_tokens(
                '-',
                &['>', '='],
                TokenKind::Minus,
                &[TokenKind::RArrow, TokenKind::MinusEq],
            );
            proof { reveal_with_fuel(second_choice, 3); }
            return r;
        } else if next == '*' {
            let r = self.single_or_double_tokens('*', &['='], TokenKind::Star, &[TokenKind::StarEq]);
            proof { reveal_with_fuel(second_choice, 2); }
            return r;
        } else if next == '/' {
            let r = self.single_or_double_tokens('/', &['='], TokenKind::Slash, &[TokenKind::SlashEq]);
            proof { reveal_with_fuel(second_choice, 2); }
            return r;
        } else if next == '=' {
            let r = self.single_or_double_tokens('=', &['='], TokenKind::Eq, &[TokenKind::EqEq]);
            proof { reveal_with_fuel(second_choice, 2); }
            return r;
        } else if next == '!' {
            let r = self.single_or_double_tokens('!', &['='], TokenKind::Bang, &[TokenKind::BangEq]);
            proof { reveal_with_fuel(second_choice, 2); }
            return r;
        } else if next == '<' {
            let r = self.single_or_double_tokens(
                '<',
                &['='],
                TokenKind::LessThan,
                &[TokenKind::LessThanOrEqual],
            );
            proof { reveal_with_fuel(second_choice, 2); }
            return r;
        } else if next == '>' {
            let r = self.single_or_double_tokens(
                '>',
                &['='],
                TokenKind::GreaterThan,
                &[TokenKind::GreaterThanOrEqual],
            );
            proof { reveal_with_fuel(second_choice, 2); }
            return r;
        } else {
            return None;
        };
        Some(self.consume_and_build_single_char_token(single_char_token_kind))
    }

    /// Reads the symbol `char1`, or the two-character symbol that it forms
    /// with the first of `second_chars` that follows it.
    fn single_or_double_tokens(
        &mut self,
        char1: char,
        second_chars: &[char],
        token1: TokenKind,
        second_tokens: &[TokenKind],
    ) -> (token: Option<Token>)
        requires
            old(self).index < old(self).text().len(),
            old(self).text()[old(self).index as int] == char1,
            second_chars@.len() == second_tokens@.len(),
        ensures
            final(self).same_but_index(*old(self)),
            match second_choice(old(self).text(), old(self).index as int, second_chars@, second_tokens@, 0) {
                Some(kind) => {
                    &&& token == Some(token_at(old(self).source.spec_id(), kind, old(self).index as int, old(self).index + 2))
                    &&& final(self).index == old(self).index + 2
                },
                None => {
                    &&& token == Some(token_at(old(self).source.spec_id(), token1, old(self).index as int, old(self).index + 1))
                    &&& final(self).index == old(self).index + 1
                },
            },
    {
        let start = self.index;
        self.next();
        let mut j: usize = 0;
        while j < second_chars.len()
            invariant
                self.index == start + 1,
                self.same_but_index(*old(self)),
                start == old(self).index,
                start < self.text().len(),
                j <= second_chars@.len() == second_tokens@.len(),
                second_choice(self.text(), start as int, second_chars@, second_tokens@, 0)
                    == second_choice(self.text(), start as int, second_chars@, second_tokens@, j as int),
            decreases second_chars@.len() - j,
        {
            if self.peek() == Some(second_chars[j]) {
                self.next();
                return Some(Token { span: self.source.span(start, self.index), kind: second_tokens[j] });
            }
            j += 1;
        }
        Some(Token { span: self.source.span(start, self.index), kind: token1 })
    }

    /// Reads the single-character symbol at the current position.
    fn consume_and_build_single_char_token(&mut self, kind: TokenKind) -> (token: Token)
        requires
            old(self).index < old(self).text().len(),
        ensures
            final(self).same_but_index(*old(self)),
            final(self).index == old(self).index + 1,
            token == token_at(old(self).source.spec_id(), kind, old(self).index as int, old(self).index + 1),
    {
        let start = self.index;
        self.next();
        Token { kind, span: self.source.span(start, self.index) }
    }

    /// Reads a number literal: its digits, then any letters or digits of a suffix.
    fn tokenize_number_literal(&mut self) -> (result: Result<Token, Diagnostic>)
        requires
            old(self).index < old(self).text().len(),
        ensures
            final(self).same_but_index(*old(self)),
            final(self).index == alnum_run_end(old(self).text(), digit_run_end(old(self).text(), old(self).index as int)),
            result == Ok::<Token, Diagnostic>(token_at(
                old(self).source.spec_id(),
                TokenKind::NumberLiteral,
                old(self).index as int,
                final(self).index as int,
            )),
    {
        let ghost text = self.text();
        let start = self.index;
        let len = self.source.len();
        while self.index < len && is_digit_char(self.source.chars()[self.index])
            invariant
                text == self.text(),
                len == text.len(),
                start <= self.index <= len,
                self.same_but_index(*old(self)),
                start == old(self).index,
                digit_run_end(text, start as int) == digit_run_end(text, self.index as int),
            decreases len - self.index,
        {
            self.next();
        }
        let digits_end = self.index;
        while self.index < len && is_alnum_char(self.source.chars()[self.index])
            invariant
                text == self.text(),
                len == text.len(),
                start <= self.index <= len,
                self.same_but_index(*old(self)),
                start == old(self).index,
                digits_end == digit_run_end(text, start as int),
                digits_end <= self.index,
                alnum_run_end(text, digits_end as int) == alnum_run_end(text, self.index as int),
            decreases len - self.index,
        {
            self.next();
        }
        Ok(Token { span: self.source.span(start, self.index), kind: TokenKind::NumberLiteral })
    }

    /// Reads an identifier or keyword.
    fn tokenize_identifier(&mut self) -> (result: Result<Token, Diagnostic>)
        requires
            old(self).index < old(self).text().len(),
        ensures
            final(self).same_but_index(*old(self)),
            final(self).index == ident_run_end(old(self).text(), old(self).index as int),
            result == Ok::<Token, Diagnostic>(token_at(
                old(self).source.spec_id(),
                match keyword_kind(old(self).text().subrange(old(self).index as int, final(self).index as int)) {
                    Some(k) => k,
                    None => TokenKind::Identifier,
                },
                old(self).index as int,
                final(self).index as int,
            )),
    {
        let ghost text = self.text();
        let start = self.index;
        let len = self.source.len();
        while self.index < len && (is_alnum_char(self.source.chars()[self.index]) || self.source.chars()[self.index] == '_')
            invariant
                text == self.text(),
                len == text.len(),
                start <= self.index <= len,
                self.same_but_index(*old(self)),
                start == old(self).index,
                ident_run_end(text, start as int) == ident_run_end(text, self.index as int),
            decreases len - self.index,
        {
            self.next();
        }
        let span = self.source.span(start, self.index);
        let word = self.source.span_chars(span);
        let kind = if let Some(k) = Self::keyword(word.as_slice()) {
            k
        } else {
            TokenKind::Identifier
        };
        Ok(Token { span, kind })
    }

    /// The keyword that `identifier` spells, if it spells one.
    fn keyword(identifier: &[char]) -> (kind: Option<TokenKind>)
        ensures
            kind == keyword_kind(identifier@),
    {
        let word = identifier;
        if chars_equal(word, &['f', 'n']) {
            Some(TokenKind::Fn)
        } else if chars_equal(word, &['i', 'f']) {
            Some(TokenKind::If)
        } else if chars_equal(word, &['l', 'e', 't']) {
            Some(TokenKind::Let)
        } else if chars_equal(word, &['m', 'u', 't']) {
            Some(TokenKind::Mut)
        } else if chars_equal(word, &['p', 'u', 'b']) {
            Some(TokenKind::Pub)
        } else if chars_equal(word, &['e', 'l', 's', 'e']) {
            Some(TokenKind::Else)
        } else if chars_equal(word, &['c', 'o', 'm', 'p']) {
            Some(TokenKind::Comp)
        } else if chars_equal(word, &['t', 'r', 'u', 'e']) {
            Some(TokenKind::True)
        } else if chars_equal(word, &['f', 'a', 'l', 's', 'e']) {
            Some(TokenKind::False)
        } else if chars_equal(word, &['w', 'h', 'i', 'l', 'e']) {
            Some(TokenKind::While)
        } else if chars_equal(word, &['r', 'e', 't', 'u', 'r', 'n']) {
            Some(TokenKind::Return)
        } else {
            None
        }
    }

    /// Reads a string literal from its opening quote, reporting the characters
    /// it may not hold and a missing closing quote.
    fn tokenize_string_literal(&mut self) -> (token: Token)
        requires
            old(self).index < old(self).text().len(),
            old(self).text()[old(self).index as int] == '"',
        ensures
            ({
                let step = lex_step(old(self).text(), old(self).source.spec_id(), old(self).index as int);
                &&& step.token == Some(token)
                &&& final(self).index == step.next
                &&& diagnostics_view(final(self).diagnostics@) == diagnostics_view(old(self).diagnostics@) + step.errors
            }),
            final(self).source == old(self).source,
            final(self).tokens == old(self).tokens,
    {
        let ghost text = self.text();
        let ghost source = self.source.spec_id();
        let ghost old_diagnostics = diagnostics_view(self.diagnostics@);
        let len = self.source.len();
        let start = self.index;
        self.next();
        proof { lemma_string_scan(text, source, start + 1); }
        while self.index < len && self.source.chars()[self.index] != '"'
            invariant
                text == self.text(),
                source == self.source.spec_id(),
                len == text.len(),
                start < self.index <= len,
                start == old(self).index,
                text[start as int] == '"',
                self.source == old(self).source,
                self.tokens == old(self).tokens,
                0 <= self.index as int,
                string_scan(text, source, start + 1).0 == string_scan(text, source, self.index as int).0,
                string_scan(text, source, start + 1).1
                    == (diagnostics_view(self.diagnostics@).skip(old_diagnostics.len() as int))
                        + string_scan(text, source, self.index as int).1,
                diagnostics_view(self.diagnostics@).take(old_diagnostics.len() as int) == old_diagnostics,
                diagnostics_view(self.diagnostics@).len() >= old_diagnostics.len(),
            decreases len - self.index,
        {
            let next = self.source.chars()[self.index];
            let ghost before = diagnostics_view(self.diagnostics@);
            if next == '\n' || next == '\\' {
                let label = char_text(next).concat(" is not supported");
                let span = self.source.span(self.index, self.index + 1);
                self.diagnostics.push(Diagnostic::error(
                    String::from_str("Unsupported character in string literal"),
                    span,
                    label,
                ));
                assert(diagnostics_view(self.diagnostics@) =~= before.push(self.diagnostics@.last()@));
            }
            proof {
                let j = self.index as int;
                let after = diagnostics_view(self.diagnostics@);
                let here = if is_unsupported_in_string(text[j]) {
                    seq![error_view(
                        "Unsupported character in string literal"@,
                        Span { source, start: j as usize, end: (j + 1) as usize },
                        unsupported_character_label(text[j]),
                    )]
                } else {
                    Seq::<DiagnosticView>::empty()
                };
                assert(after =~= before + here);
                assert(after.skip(old_diagnostics.len() as int) =~= before.skip(old_diagnostics.len() as int) + here);
                assert(after.take(old_diagnostics.len() as int) =~= before.take(old_diagnostics.len() as int));
                assert((before.skip(old_diagnostics.len() as int) + here) + string_scan(text, source, j + 1).1
                    =~= before.skip(old_diagnostics.len() as int) + (here + string_scan(text, source, j + 1).1));
            }
            self.next();
        }
        let ghost body = diagnostics_view(self.diagnostics@).skip(old_diagnostics.len() as int);
        assert(diagnostics_view(self.diagnostics@) =~= old_diagnostics + body);
        assert(body + string_scan(text, source, self.index as int).1 =~= body);
        if self.index >= len {
            let span = self.source.span(self.index, self.index);
            self.diagnostics.push(Diagnostic::error(
                String::from_str("Unterminated string literal"),
                span,
                String::from_str(":("),
            ));
            assert(diagnostics_view(self.diagnostics@) =~= old_diagnostics + body.push(self.diagnostics@.last()@));
        } else {
            self.next();
        }
        Token { span: self.source.span(start, self.index), kind: TokenKind::StringLiteral }
    }

    /// The character at the current position, if any is left.
    fn peek(&self) -> (next: Option<char>)
        ensures
            next == (if self.index < self.text().len() {
                Some(self.text()[self.index as int])
            } else {
                None
            }),
    {
        if self.index < self.source.len() {
            Some(self.source.chars()[self.index])
        } else {
            None
        }
    }

    /// Moves past the current character, if any is left.
    fn next(&mut self) -> (consumed: Option<char>)
        ensures
            consumed == (if old(self).index < old(self).text().len() {
                Some(old(self).text()[old(self).index as int])
            } else {
                None
            }),
            final(self).index == (if old(self).index < old(self).text().len() {
                old(self).index + 1
            } else {
                old(self).index as int
            }),
            final(self).source == old(self).source,
            final(self).tokens == old(self).tokens,
            final(self).diagnostics == old(self).diagnostics,
    {
        let next = self.peek();
        if self.index < self.source.len() {
            self.index += 1;
        }
        next
    }
}

} // verus!
