//! The parser: builds the syntax tree of a file from its tokens, by
//! recursive descent with precedence climbing for binary operators.

use vstd::prelude::*;
use std::rc::Rc;
use crate::ast::{
    BinaryOperator, Binding, Block, ElseBranch, Expression, ExpressionData, FunctionExpression, If,
    Item, ItemData, Parameter, Phase, Program, Statement, StatementData, TypeExpression,
    TypeExpressionData, UnaryOperator, Visibility, While,
};
use crate::diagnostics::{Diagnostic, error_view, error_str};
use crate::source::{SourceFile, SourceId, Span, span_readable};
use crate::token::{Token, TokenKind};
use crate::tokenizer::{chars_equal, symbol_token};

verus! {

/// The tokens belong to the file and each covers at least one of its characters.
pub open spec fn tokens_fit(tokens: Seq<Token>, file: &SourceFile) -> bool {
    forall|k: int| 0 <= k < tokens.len() ==> {
        &&& (#[trigger] tokens[k]).span.source == file.spec_id()
        &&& tokens[k].span.start < tokens[k].span.end <= file.contents().len()
    }
}

/// A top-level item starts with one of these keywords.
pub open spec fn item_keyword(kind: TokenKind) -> bool {
    kind == TokenKind::Pub || kind == TokenKind::Comp
}

/// The span from the start of token `lo` to the end of token `hi - 1`.
pub open spec fn tokens_span(tokens: Seq<Token>, source: SourceId, lo: int, hi: int) -> Span {
    Span { source, start: tokens[lo].span.start, end: tokens[hi - 1].span.end }
}

/// What the item that starts at token `start` holds: it is public exactly
/// when it starts with `pub`, its name is the identifier after `comp`, and
/// the operators of its expression group by precedence.
pub open spec fn item_read(item: Item, tokens: Seq<Token>, start: int) -> bool {
    let name_index = if tokens[start].kind == TokenKind::Pub { start + 2 } else { start + 1 };
    &&& item.visibility == (if tokens[start].kind == TokenKind::Pub { Visibility::Public } else { Visibility::Private })
    &&& name_index < tokens.len()
    &&& tokens[name_index].kind == TokenKind::Identifier
    &&& item.data->Binding_0.name == tokens[name_index].span
    &&& grouped(item.data->Binding_0.expression)
}

/// Item `k` covers the tokens from `bounds[k]` up to `bounds[k + 1]`, which
/// start with its keyword and end with its `;`; together the items cover
/// every token, in order.
pub open spec fn items_cover(items: Seq<Item>, tokens: Seq<Token>, source: SourceId, bounds: Seq<int>) -> bool {
    &&& bounds.len() == items.len() + 1
    &&& bounds[0] == 0
    &&& bounds[items.len() as int] == tokens.len()
    &&& forall|k: int| 0 <= k < items.len() ==> {
        &&& bounds[k] < #[trigger] bounds[k + 1]
        &&& items[k].span == tokens_span(tokens, source, bounds[k], bounds[k + 1])
        &&& item_keyword(tokens[bounds[k]].kind)
        &&& tokens[bounds[k + 1] - 1].kind == TokenKind::Semi
        &&& item_read(items[k], tokens, bounds[k])
    }
}

/// The binary operator that a token kind stands for, with its precedence:
/// equality binds loosest, then comparison, then addition, then multiplication.
pub open spec fn binary_operator_of(kind: TokenKind) -> Option<(BinaryOperator, u8)> {
    match kind {
        TokenKind::EqEq => Some((BinaryOperator::Equal, 1)),
        TokenKind::BangEq => Some((BinaryOperator::NotEqual, 1)),
        TokenKind::LessThanOrEqual => Some((BinaryOperator::LessThanOrEqual, 2)),
        TokenKind::LessThan => Some((BinaryOperator::LessThan, 2)),
        TokenKind::GreaterThanOrEqual => Some((BinaryOperator::GreaterThanOrEqual, 2)),
        TokenKind::GreaterThan => Some((BinaryOperator::GreaterThan, 2)),
        TokenKind::Plus => Some((BinaryOperator::Add, 3)),
        TokenKind::Minus => Some((BinaryOperator::Subtract, 3)),
        TokenKind::Star => Some((BinaryOperator::Multiply, 4)),
        TokenKind::Slash => Some((BinaryOperator::Divide, 4)),
        _ => None,
    }
}

/// How `operator` is written in source.
pub open spec fn operator_symbol(operator: BinaryOperator) -> Seq<char> {
    match operator {
        BinaryOperator::Add => seq!['+'],
        BinaryOperator::Subtract => seq!['-'],
        BinaryOperator::Multiply => seq!['*'],
        BinaryOperator::Divide => seq!['/'],
        BinaryOperator::Equal => seq!['=', '='],
        BinaryOperator::NotEqual => seq!['!', '='],
        BinaryOperator::LessThan => seq!['<'],
        BinaryOperator::LessThanOrEqual => seq!['<', '='],
        BinaryOperator::GreaterThan => seq!['>'],
        BinaryOperator::GreaterThanOrEqual => seq!['>', '='],
    }
}

/// Law: a binary operator that the parser reads from a symbol token is the
/// operator that the token's characters spell.
pub proof fn law_operator_spelled_by_its_token(text: Seq<char>, i: int)
    requires
        0 <= i < text.len(),
        symbol_token(text, i) matches Some((kind, _)) && binary_operator_of(kind) is Some,
    ensures
        symbol_token(text, i) matches Some((kind, n)) && binary_operator_of(kind) matches Some((operator, _))
            && i + n <= text.len() && text.subrange(i, i + n) == operator_symbol(operator),
{
    let (kind, n) = symbol_token(text, i)->0;
    let (operator, _) = binary_operator_of(kind)->0;
    assert(i + n <= text.len());
    assert(text.subrange(i, i + n) =~= operator_symbol(operator));
}

/// Law: the precedence with which an operator token is read is its
/// operator's precedence, and multiplication binds tighter than addition,
/// addition than comparison, and comparison than equality.
pub proof fn law_operator_precedence(kind: TokenKind)
    ensures
        binary_operator_of(kind) matches Some((operator, p)) ==> p == precedence(operator),
        precedence(BinaryOperator::Multiply) == precedence(BinaryOperator::Divide),
        precedence(BinaryOperator::Add) == precedence(BinaryOperator::Subtract),
        precedence(BinaryOperator::Divide) > precedence(BinaryOperator::Add),
        precedence(BinaryOperator::Subtract) > precedence(BinaryOperator::LessThan),
        precedence(BinaryOperator::LessThan) == precedence(BinaryOperator::LessThanOrEqual),
        precedence(BinaryOperator::LessThan) == precedence(BinaryOperator::GreaterThan),
        precedence(BinaryOperator::LessThan) == precedence(BinaryOperator::GreaterThanOrEqual),
        precedence(BinaryOperator::GreaterThanOrEqual) > precedence(BinaryOperator::Equal),
        precedence(BinaryOperator::Equal) == precedence(BinaryOperator::NotEqual),
{
}

/// Law: different operator tokens stand for different operators, so the
/// parser never reads one operator for another.
pub proof fn law_operator_tokens_told_apart(k1: TokenKind, k2: TokenKind)
    requires
        binary_operator_of(k1) matches Some((o1, _)) && binary_operator_of(k2) matches Some((o2, _)) && o1 == o2,
    ensures
        k1 == k2,
{
}

/// Whether an expression ends before the token at `j`: no token is there,
/// or one that neither continues a postfix expression nor is a binary operator.
pub open spec fn ends_expression(tokens: Seq<Token>, j: int) -> bool {
    j >= tokens.len() || {
        let kind = tokens[j].kind;
        &&& kind != TokenKind::Dot && kind != TokenKind::LParen && kind != TokenKind::LBrack && kind != TokenKind::LessThan
        &&& binary_operator_of(kind) is None
    }
}

/// The tokens at `i` are `fn ( ) -> name`: the signature of a function
/// with no parameters.
pub open spec fn fn_signature_at(tokens: Seq<Token>, i: int) -> bool {
    &&& 0 <= i && i + 4 < tokens.len()
    &&& tokens[i].kind == TokenKind::Fn
    &&& tokens[i + 1].kind == TokenKind::LParen
    &&& tokens[i + 2].kind == TokenKind::RParen
    &&& tokens[i + 3].kind == TokenKind::RArrow
    &&& tokens[i + 4].kind == TokenKind::Identifier
}

/// Where the list `name , name , ... )` of type names that starts at `j`
/// closes, if the tokens there are such a list.
pub open spec fn name_list_close(tokens: Seq<Token>, j: int) -> Option<int>
    decreases tokens.len() - j,
{
    if 0 <= j && j + 1 < tokens.len() && tokens[j].kind == TokenKind::Identifier {
        if tokens[j + 1].kind == TokenKind::RParen {
            Some(j + 1)
        } else if tokens[j + 1].kind == TokenKind::Comma {
            name_list_close(tokens, j + 2)
        } else {
            None
        }
    } else {
        None
    }
}

/// A list of type names closes at a `)` after its start.
proof fn lemma_name_list_closes(tokens: Seq<Token>, j: int)
    requires
        name_list_close(tokens, j) is Some,
    ensures
        j < name_list_close(tokens, j)->0 < tokens.len(),
        tokens[name_list_close(tokens, j)->0].kind == TokenKind::RParen,
    decreases tokens.len() - j,
{
    if tokens[j + 1].kind != TokenKind::RParen {
        lemma_name_list_closes(tokens, j + 2);
    }
}

/// Where the function type `fn ( name , ... ) -> name` that starts at `i`
/// ends, if the tokens there are one: its parameters and its result are
/// written as type names.
pub open spec fn typed_signature_end(tokens: Seq<Token>, i: int) -> Option<int> {
    if 0 <= i && i + 2 < tokens.len() && tokens[i].kind == TokenKind::Fn && tokens[i + 1].kind == TokenKind::LParen {
        let close = if tokens[i + 2].kind == TokenKind::RParen { Some(i + 2) } else { name_list_close(tokens, i + 2) };
        match close {
            Some(c) => if c + 2 < tokens.len() && tokens[c + 1].kind == TokenKind::RArrow
                && tokens[c + 2].kind == TokenKind::Identifier {
                Some(c + 3)
            } else {
                None
            },
            None => None,
        }
    } else {
        None
    }
}

/// The tokens at `i` are such a function type, with no `{` after it.
pub open spec fn fn_type_at(tokens: Seq<Token>, i: int) -> bool {
    typed_signature_end(tokens, i) matches Some(end) && !(end < tokens.len() && tokens[end].kind == TokenKind::LCurly)
}

/// The tokens at `i` are `return number ;`.
pub open spec fn return_number_at(tokens: Seq<Token>, i: int) -> bool {
    &&& 0 <= i && i + 2 < tokens.len()
    &&& tokens[i].kind == TokenKind::Return
    &&& tokens[i + 1].kind == TokenKind::NumberLiteral
    &&& tokens[i + 2].kind == TokenKind::Semi
}

/// The tokens at `i` are `{ return number ; }`.
pub open spec fn return_number_block_at(tokens: Seq<Token>, i: int) -> bool {
    &&& 0 <= i && i + 4 < tokens.len()
    &&& tokens[i].kind == TokenKind::LCurly
    &&& return_number_at(tokens, i + 1)
    &&& tokens[i + 4].kind == TokenKind::RCurly
}

/// The tokens at `i` are `fn ( ) -> name { return number ; }`: a function
/// with no parameters that returns a number.
pub open spec fn fn_literal_at(tokens: Seq<Token>, i: int) -> bool {
    &&& fn_signature_at(tokens, i)
    &&& return_number_block_at(tokens, i + 5)
}

/// How many tokens the operand at `i` takes when it is a number, a function
/// type with no parameters, or a function with no parameters that returns a
/// number; 0 otherwise.
pub open spec fn operand_length(tokens: Seq<Token>, i: int) -> int {
    if 0 <= i < tokens.len() && tokens[i].kind == TokenKind::NumberLiteral {
        1
    } else if fn_type_at(tokens, i) {
        typed_signature_end(tokens, i)->0 - i
    } else if fn_literal_at(tokens, i) {
        10
    } else {
        0
    }
}

/// The tokens at `i` hold such an operand, and nothing after it continues
/// the expression.
pub open spec fn simple_operand(tokens: Seq<Token>, i: int) -> bool {
    &&& operand_length(tokens, i) > 0
    &&& ends_expression(tokens, i + operand_length(tokens, i))
}

/// The tokens at `i` are `comp name =`, then such an operand, then `;`.
pub open spec fn operand_binding_at(tokens: Seq<Token>, i: int) -> bool {
    &&& 0 <= i && i + 3 < tokens.len()
    &&& tokens[i].kind == TokenKind::Comp
    &&& tokens[i + 1].kind == TokenKind::Identifier
    &&& tokens[i + 2].kind == TokenKind::Eq
    &&& simple_operand(tokens, i + 3)
    &&& i + 3 + operand_length(tokens, i + 3) < tokens.len()
    &&& tokens[i + 3 + operand_length(tokens, i + 3)].kind == TokenKind::Semi
}

/// The tokens at `i` are `comp name =` and such an operand with no `;` after it.
pub open spec fn unterminated_binding_at(tokens: Seq<Token>, i: int) -> bool {
    &&& 0 <= i && i + 3 < tokens.len()
    &&& tokens[i].kind == TokenKind::Comp
    &&& tokens[i + 1].kind == TokenKind::Identifier
    &&& tokens[i + 2].kind == TokenKind::Eq
    &&& simple_operand(tokens, i + 3)
    &&& !(i + 3 + operand_length(tokens, i + 3) < tokens.len()
        && tokens[i + 3 + operand_length(tokens, i + 3)].kind == TokenKind::Semi)
}

/// `tokens` are exactly one such binding.
pub open spec fn single_operand_binding(tokens: Seq<Token>) -> bool {
    &&& operand_binding_at(tokens, 0)
    &&& tokens.len() == 4 + operand_length(tokens, 3)
}

/// The tokens at `i` are `comp`, a name, `=` and a number: the start of a
/// simple top-level binding.
pub open spec fn simple_binding_head(tokens: Seq<Token>, i: int) -> bool {
    &&& 0 <= i && i + 3 < tokens.len()
    &&& tokens[i].kind == TokenKind::Comp
    &&& tokens[i + 1].kind == TokenKind::Identifier
    &&& tokens[i + 2].kind == TokenKind::Eq
    &&& tokens[i + 3].kind == TokenKind::NumberLiteral
}

/// The tokens at `i` are `comp name = number ;`.
pub open spec fn simple_binding_at(tokens: Seq<Token>, i: int) -> bool {
    &&& simple_binding_head(tokens, i)
    &&& i + 4 < tokens.len()
    &&& tokens[i + 4].kind == TokenKind::Semi
}

/// `item` is the binding `comp name = number ;` read from the tokens at `i`:
/// a `comp` binding without a type whose expression is the number.
pub open spec fn number_binding_item(item: Item, tokens: Seq<Token>, source: SourceId, i: int) -> bool {
    let binding = item.data->Binding_0;
    &&& binding.phase == Phase::Comptime
    &&& binding.type_annotation is None
    &&& binding.name == tokens[i + 1].span
    &&& binding.expression.data is IntegerLiteral
    &&& binding.expression.span == tokens_span(tokens, source, i + 3, i + 4)
}

/// The tokens are simple top-level bindings, one after the other.
pub open spec fn simple_bindings(tokens: Seq<Token>) -> bool {
    &&& tokens.len() % 5 == 0
    &&& forall|k: int| 0 <= k < tokens.len() / 5 ==> #[trigger] simple_binding_at(tokens, 5 * k)
}

/// How tightly a binary operator binds: equality 1, comparison 2, addition
/// and subtraction 3, multiplication and division 4.
pub open spec fn precedence(operator: BinaryOperator) -> int {
    match operator {
        BinaryOperator::Equal | BinaryOperator::NotEqual => 1,
        BinaryOperator::LessThan | BinaryOperator::LessThanOrEqual
            | BinaryOperator::GreaterThan | BinaryOperator::GreaterThanOrEqual => 2,
        BinaryOperator::Add | BinaryOperator::Subtract => 3,
        BinaryOperator::Multiply | BinaryOperator::Divide => 4,
    }
}

/// How tightly an expression binds as an operand: its operator's
/// precedence for a binary expression, tighter than any operator otherwise.
pub open spec fn binding_strength(expression: Expression) -> int {
    match expression.data {
        ExpressionData::Binary { operator, .. } => precedence(operator),
        _ => 5,
    }
}

/// The binary operators of `expression` group by precedence and to the
/// left: the left operand of an operator binds at least as tightly as it,
/// the right operand strictly more tightly.
pub open spec fn grouped(expression: Expression) -> bool
    decreases expression,
{
    match expression.data {
        ExpressionData::Binary { lhs, operator, rhs } => {
            &&& binding_strength(*lhs) >= precedence(operator)
            &&& binding_strength(*rhs) > precedence(operator)
            &&& grouped(*lhs)
            &&& grouped(*rhs)
        },
        _ => true,
    }
}

/// Whether the tokens from `index` on close a `<` with a `>` that a `(` follows,
/// before any `;`, `{` or `}`, skipping over parenthesized tokens.
pub open spec fn closes_specialization(tokens: Seq<Token>, index: int, nested: int) -> bool
    decreases tokens.len() - index,
{
    if index < 0 || index >= tokens.len() {
        false
    } else {
        let kind = tokens[index].kind;
        if kind == TokenKind::LParen {
            closes_specialization(tokens, index + 1, nested + 1)
        } else if kind == TokenKind::RParen && nested > 0 {
            closes_specialization(tokens, index + 1, nested - 1)
        } else if kind == TokenKind::GreaterThan && nested == 0 {
            index + 1 < tokens.len() && tokens[index + 1].kind == TokenKind::LParen
        } else if kind == TokenKind::Semi || kind == TokenKind::LCurly || kind == TokenKind::RCurly {
            false
        } else {
            closes_specialization(tokens, index + 1, nested)
        }
    }
}

/// The name of an intrinsic expression can be read from the file.
pub open spec fn intrinsic_name_readable(expression: &Expression, text: Seq<char>) -> bool {
    match expression.data {
        ExpressionData::Intrinsic { name } => span_readable(text, name),
        _ => true,
    }
}

/// Builds the syntax tree of one file from its tokens.
pub struct Parser<'src, 'tokens> {
    source: &'src SourceFile,
    tokens: &'tokens [Token],
    index: usize,
    diagnostics: Vec<Diagnostic>,
}

/// A function parameter as written before it is known whether the function
/// is a literal (which names its parameters) or a type (which does not).
enum ParsedFunctionParameter {
    Named(Parameter),
    Unnamed(TypeExpression),
}

/// The signature shared by function literals and function types.
struct ParsedFunctionSignature {
    fn_span: Span,
    comptime_args: Vec<Parameter>,
    runtime_args: Vec<ParsedFunctionParameter>,
    return_type: TypeExpression,
}

impl<'src, 'tokens> Parser<'src, 'tokens> {
    /// The file being parsed.
    pub closed spec fn spec_source(&self) -> &'src SourceFile {
        self.source
    }

    /// The tokens being parsed.
    pub closed spec fn spec_tokens(&self) -> Seq<Token> {
        self.tokens@
    }

    /// The parser has not started yet.
    pub closed spec fn is_fresh(&self) -> bool {
        self.index == 0 && self.diagnostics@.len() == 0
    }

    closed spec fn wf(&self) -> bool {
        &&& tokens_fit(self.tokens@, self.source)
        &&& self.tokens@.len() > 0
        &&& self.index <= self.tokens@.len()
    }

    /// The span from the start of token `lo` to the end of token `hi - 1`.
    closed spec fn covering(&self, lo: int, hi: int) -> Span {
        Span {
            source: self.source.spec_id(),
            start: self.tokens@[lo].span.start,
            end: self.tokens@[hi - 1].span.end,
        }
    }

    /// `self` continues `earlier`: same file and tokens, no position or
    /// diagnostic given back.
    closed spec fn continues(&self, earlier: &Self) -> bool {
        &&& self.wf()
        &&& self.source == earlier.source
        &&& self.tokens@ == earlier.tokens@
        &&& self.index >= earlier.index
        &&& self.diagnostics@.len() >= earlier.diagnostics@.len()
    }

    /// A parse step that returned a node covering the tokens it consumed, or
    /// returned nothing and reported why.
    closed spec fn step_result(&self, earlier: &Self, produced: bool, span: Span) -> bool {
        &&& self.continues(earlier)
        &&& produced ==> self.index > earlier.index && span == self.covering(earlier.index as int, self.index as int)
        &&& !produced ==> self.diagnostics@.len() > earlier.diagnostics@.len()
    }

    /// A parse step that consumed tokens and returned something, or returned
    /// nothing and reported why.
    closed spec fn advance_result(&self, earlier: &Self, produced: bool) -> bool {
        &&& self.continues(earlier)
        &&& produced ==> self.index > earlier.index
        &&& !produced ==> self.diagnostics@.len() > earlier.diagnostics@.len()
    }

    /// A parser at the first of `tokens`.
    pub fn new(source: &'src SourceFile, tokens: &'tokens [Token]) -> (parser: Parser<'src, 'tokens>)
        ensures
            parser.spec_source() == source,
            parser.spec_tokens() == tokens@,
            parser.is_fresh(),
    {
        Parser { tokens, source, index: 0, diagnostics: Vec::new() }
    }

    /// Parses the whole file. Succeeds exactly when no error was reported;
    /// each item then covers the tokens from its first keyword to its `;`,
    /// in the order of the file.
    pub fn parse(self) -> (result: Result<Program, Vec<Diagnostic>>)
        requires
            self.is_fresh(),
            tokens_fit(self.spec_tokens(), self.spec_source()),
        ensures
            match result {
                Ok(program) => exists|bounds: Seq<int>|
                    #[trigger] items_cover(program.items@, self.spec_tokens(), self.spec_source().spec_id(), bounds),
                Err(diagnostics) => diagnostics@.len() > 0,
            },
            self.spec_tokens().len() == 0 ==> (result matches Ok(program) && program.items@.len() == 0),
            simple_bindings(self.spec_tokens()) ==> (result matches Ok(program) && program.items@.len() == self.spec_tokens().len() / 5),
            simple_bindings(self.spec_tokens()) ==> (result matches Ok(program) && forall|k: int| 0 <= k < program.items@.len() ==>
                number_binding_item(#[trigger] program.items@[k], self.spec_tokens(), self.spec_source().spec_id(), 5 * k)),
            single_operand_binding(self.spec_tokens()) ==> (result matches Ok(program) && program.items@.len() == 1),
    {
        let mut this = self;
        let mut program = Program { items: Vec::new() };
        let ghost tokens = self.tokens@;
        let ghost source = self.source.spec_id();
        let ghost mut bounds: Seq<int> = seq![0int];
        if this.tokens.len() == 0 {
            assert(items_cover(program.items@, self.spec_tokens(), self.spec_source().spec_id(), bounds));
            let ghost items = program.items@;
            let result = Ok(program);
            assert(result->Ok_0.items@ == items);
            return result;
        }
        let ghost _fresh = this.index == 0 && this.diagnostics@.len() == 0;
        while this.peek().is_some()
            invariant_except_break
                bounds[program.items@.len() as int] == this.index,
            invariant
                this.wf(),
                this.source == self.source,
                this.tokens@ == tokens,
                source == self.source.spec_id(),
                bounds.len() == program.items@.len() + 1,
                bounds[0] == 0,
                forall|k: int| 0 <= k < program.items@.len() ==> {
                    &&& bounds[k] < #[trigger] bounds[k + 1]
                    &&& program.items@[k].span == tokens_span(tokens, source, bounds[k], bounds[k + 1])
                    &&& item_keyword(tokens[bounds[k]].kind)
                    &&& tokens[bounds[k + 1] - 1].kind == TokenKind::Semi
                    &&& item_read(program.items@[k], tokens, bounds[k])
                },
                simple_bindings(tokens) ==> this.index == 5 * program.items@.len() && this.diagnostics@.len() == 0
                    && this.index <= tokens.len(),
                simple_bindings(tokens) ==> forall|k: int| 0 <= k < program.items@.len() ==>
                    number_binding_item(#[trigger] program.items@[k], tokens, source, 5 * k),
                single_operand_binding(tokens) ==> this.diagnostics@.len() == 0
                    && ((this.index == 0 && program.items@.len() == 0) || (this.index == tokens.len() && program.items@.len() == 1)),
            ensures
                this.diagnostics@.len() > 0 || (this.index == tokens.len() && bounds[program.items@.len() as int] == this.index),
            decreases this.tokens@.len() - this.index,
        {
            proof {
                if simple_bindings(tokens) {
                    let k = program.items@.len() as int;
                    assert(this.index < tokens.len());
                    assert(k < tokens.len() / 5);
                    assert(simple_binding_at(tokens, 5 * k));
                }
            }
            let item = this.parse_item();
            if let Some(item) = item {
                proof {
                    bounds = bounds.push(this.index as int);
                }
                program.items.push(item);
            } else {
                break;
            }
        }
        if this.diagnostics.len() == 0 {
            assert(items_cover(program.items@, self.spec_tokens(), self.spec_source().spec_id(), bounds));
            let ghost items = program.items@;
            let result = Ok(program);
            assert(result->Ok_0.items@ == items);
            result
        } else {
            Err(this.diagnostics)
        }
    }

    fn parse_item(&mut self) -> (item: Option<Item>)
        requires
            old(self).wf(),
        ensures
            final(self).step_result(old(self), item is Some, match item { Some(i) => i.span, None => arbitrary() }),
            item is Some ==> item_keyword(old(self).tokens@[old(self).index as int].kind),
            item is Some ==> final(self).tokens@[final(self).index - 1].kind == TokenKind::Semi,
            item matches Some(i) ==> item_read(i, old(self).tokens@, old(self).index as int),
            simple_binding_at(old(self).tokens@, old(self).index as int) ==> item is Some
                && final(self).index == old(self).index + 5 && final(self).diagnostics == old(self).diagnostics,
            simple_binding_at(old(self).tokens@, old(self).index as int) ==> (item matches Some(it)
                && number_binding_item(it, old(self).tokens@, old(self).source.spec_id(), old(self).index as int)),
            operand_binding_at(old(self).tokens@, old(self).index as int) ==> item is Some
                && final(self).index == old(self).index + 4 + operand_length(old(self).tokens@, old(self).index + 3)
                && final(self).diagnostics == old(self).diagnostics,
            unterminated_binding_at(old(self).tokens@, old(self).index as int) ==> {
                &&& item is None
                &&& final(self).diagnostics@.len() == old(self).diagnostics@.len() + 1
                &&& final(self).diagnostics@.last()@.primary.text == "expected `;` after binding"@
            },
            simple_binding_head(old(self).tokens@, old(self).index as int) && ends_expression(old(self).tokens@, old(self).index + 4)
                && !(old(self).index + 4 < old(self).tokens@.len() && old(self).tokens@[old(self).index + 4].kind == TokenKind::Semi) ==> {
                &&& item is None
                &&& final(self).diagnostics@.len() == old(self).diagnostics@.len() + 1
                &&& final(self).diagnostics@.last()@.primary.text == "expected `;` after binding"@
            },
    {
        proof {
            reveal_strlit("expected `;` after binding");
        }
        let public_prefix = if self.peek_is(TokenKind::Pub) {
            Some(self.expect(TokenKind::Pub, "Expected `pub`")?)
        } else {
            None
        };
        let visibility = if public_prefix.is_some() {
            Visibility::Public
        } else {
            Visibility::Private
        };
        let comp = self.expect(TokenKind::Comp, "Expected `comp` at top-level Declaration")?;
        let start = match public_prefix {
            Some(token) => token.span,
            None => comp.span,
        };
        let identifier = self.expect(TokenKind::Identifier, "Expected identifier at top-level Binding")?;
        let type_annotation = if self.peek_is(TokenKind::Colon) {
            self.expect(TokenKind::Colon, "Expected `:`")?;
            Some(self.parse_type_expression()?)
        } else {
            None
        };
        self.expect(TokenKind::Eq, "Expected `=` at top-level Binding")?;
        let expression = self.parse_expression()?;
        let semi = self.expect(TokenKind::Semi, "expected `;` after binding")?;
        Some(Item {
            span: self.source.fromto(start, semi.span),
            visibility,
            data: ItemData::Binding(Binding {
                name: identifier.span,
                expression,
                type_annotation,
                mutable: false,
                phase: Phase::Comptime,
            }),
        })
    }

    fn parse_expression(&mut self) -> (expression: Option<Expression>)
        requires
            old(self).wf(),
        ensures
            final(self).step_result(old(self), expression is Some, match expression { Some(e) => e.span, None => arbitrary() }),
            expression matches Some(e) ==> grouped(e),
            simple_operand(old(self).tokens@, old(self).index as int) ==> expression is Some
                && final(self).index == old(self).index + operand_length(old(self).tokens@, old(self).index as int)
                && final(self).diagnostics == old(self).diagnostics,
            old(self).peek_spec() == Some(TokenKind::NumberLiteral) && ends_expression(old(self).tokens@, old(self).index + 1)
                ==> (expression matches Some(e) && e.data is IntegerLiteral),
        decreases old(self).tokens@.len() - old(self).index, 20nat,
    {
        self.parse_binary_expression(0)
    }

    fn parse_prefix_expression(&mut self) -> (expression: Option<Expression>)
        requires
            old(self).wf(),
        ensures
            expression matches Some(e) ==> !(e.data is Binary),
            final(self).step_result(old(self), expression is Some, match expression { Some(e) => e.span, None => arbitrary() }),
            simple_operand(old(self).tokens@, old(self).index as int) ==> expression is Some
                && final(self).index == old(self).index + operand_length(old(self).tokens@, old(self).index as int)
                && final(self).diagnostics == old(self).diagnostics,
            old(self).peek_spec() == Some(TokenKind::NumberLiteral) && ends_expression(old(self).tokens@, old(self).index + 1)
                ==> (expression matches Some(e) && e.data is IntegerLiteral),
        decreases old(self).tokens@.len() - old(self).index, 18nat,
    {
        if self.peek_is(TokenKind::Minus) {
            let minus = self.expect(TokenKind::Minus, "expected `-`")?;
            let operand = self.parse_prefix_expression()?;
            return Some(Expression {
                span: self.source.fromto(minus.span, operand.span),
                data: ExpressionData::Unary { operator: UnaryOperator::Negate, operand: Box::new(operand) },
            });
        }
        self.parse_postfix_expression()
    }

    fn parse_binary_expression(&mut self, minimum_precedence: u8) -> (expression: Option<Expression>)
        requires
            old(self).wf(),
            minimum_precedence <= 5,
        ensures
            final(self).step_result(old(self), expression is Some, match expression { Some(e) => e.span, None => arbitrary() }),
            expression matches Some(e) ==> {
                &&& grouped(e)
                &&& binding_strength(e) >= minimum_precedence
                &&& final(self).next_precedence() < minimum_precedence
            },
            simple_operand(old(self).tokens@, old(self).index as int) ==> expression is Some
                && final(self).index == old(self).index + operand_length(old(self).tokens@, old(self).index as int)
                && final(self).diagnostics == old(self).diagnostics,
            old(self).peek_spec() == Some(TokenKind::NumberLiteral) && ends_expression(old(self).tokens@, old(self).index + 1)
                ==> (expression matches Some(e) && e.data is IntegerLiteral),
        decreases old(self).tokens@.len() - old(self).index, 19nat,
    {
        let mut lhs = self.parse_prefix_expression()?;
        loop
            invariant
                simple_operand(old(self).tokens@, old(self).index as int) ==>
                    self.index == old(self).index + operand_length(old(self).tokens@, old(self).index as int)
                    && self.diagnostics == old(self).diagnostics,
                old(self).peek_spec() == Some(TokenKind::NumberLiteral) && ends_expression(old(self).tokens@, old(self).index + 1)
                    ==> lhs.data is IntegerLiteral,
                self.continues(old(self)),
                self.index > old(self).index,
                lhs.span == self.covering(old(self).index as int, self.index as int),
                grouped(lhs),
                binding_strength(lhs) >= minimum_precedence,
                self.next_precedence() <= binding_strength(lhs),
            ensures
                self.next_precedence() < minimum_precedence,
            decreases self.tokens@.len() - self.index,
        {
            let Some((operator, precedence)) = self.peek_binary_operator() else {
                break;
            };
            if precedence < minimum_precedence {
                break;
            }
            self.consume();
            let rhs = self.parse_binary_expression(precedence + 1)?;
            let span = self.source.fromto(lhs.span, rhs.span);
            lhs = Expression {
                span,
                data: ExpressionData::Binary { lhs: Box::new(lhs), operator, rhs: Box::new(rhs) },
            };
        }
        Some(lhs)
    }

    fn parse_postfix_expression(&mut self) -> (expression: Option<Expression>)
        requires
            old(self).wf(),
        ensures
            expression matches Some(e) ==> !(e.data is Binary),
            final(self).step_result(old(self), expression is Some, match expression { Some(e) => e.span, None => arbitrary() }),
            simple_operand(old(self).tokens@, old(self).index as int) ==> expression is Some
                && final(self).index == old(self).index + operand_length(old(self).tokens@, old(self).index as int)
                && final(self).diagnostics == old(self).diagnostics,
            old(self).peek_spec() == Some(TokenKind::NumberLiteral) && ends_expression(old(self).tokens@, old(self).index + 1)
                ==> (expression matches Some(e) && e.data is IntegerLiteral),
        decreases old(self).tokens@.len() - old(self).index, 17nat,
    {
        let mut expression = self.parse_primary()?;
        loop
            invariant
                simple_operand(old(self).tokens@, old(self).index as int) ==>
                    self.index == old(self).index + operand_length(old(self).tokens@, old(self).index as int)
                    && self.diagnostics == old(self).diagnostics,
                old(self).peek_spec() == Some(TokenKind::NumberLiteral) && ends_expression(old(self).tokens@, old(self).index + 1)
                    ==> expression.data is IntegerLiteral,
                self.continues(old(self)),
                self.index > old(self).index,
                expression.span == self.covering(old(self).index as int, self.index as int),
                intrinsic_name_readable(&expression, self.source.contents()),
                !(expression.data is Binary),
            decreases self.tokens@.len() - self.index,
        {
            let intrinsic = match &expression.data {
                ExpressionData::Intrinsic { .. } => true,
                _ => false,
            };
            if self.peek_is(TokenKind::Dot) {
                expression = self.parse_member_expression(expression)?;
            } else if self.peek_is(TokenKind::LParen) {
                expression = self.parse_call_expression(expression)?;
            } else if self.peek_is(TokenKind::LBrack) {
                expression = self.parse_index_expression(expression)?;
            } else if self.peek_is(TokenKind::LessThan) && (intrinsic || self.looks_like_specialization()) {
                expression = self.parse_specialization_expression(expression)?;
            } else {
                break;
            }
        }
        Some(expression)
    }

    /// Whether a `<` at the current position opens compile-time arguments
    /// rather than a comparison.
    fn looks_like_specialization(&self) -> (looks: bool)
        requires
            self.wf(),
        ensures
            looks == (self.peek_spec() == Some(TokenKind::LessThan)
                && closes_specialization(self.tokens@, self.index + 1, 0)),
    {
        if !self.peek_is(TokenKind::LessThan) || self.index >= self.tokens.len() {
            return false;
        }
        let mut index = self.index + 1;
        let mut nested_parens: usize = 0;
        while index < self.tokens.len()
            invariant
                self.wf(),
                self.index < index <= self.tokens@.len(),
                nested_parens <= index - self.index,
                self.peek_spec() == Some(TokenKind::LessThan),
                closes_specialization(self.tokens@, self.index + 1, 0)
                    == closes_specialization(self.tokens@, index as int, nested_parens as int),
            decreases self.tokens@.len() - index,
        {
            let kind = self.tokens[index].kind;
            if kind == TokenKind::LParen {
                nested_parens += 1;
            } else if kind == TokenKind::RParen && nested_parens > 0 {
                nested_parens -= 1;
            } else if kind == TokenKind::GreaterThan && nested_parens == 0 {
                assert(closes_specialization(self.tokens@, index as int, 0) == (index + 1 < self.tokens@.len()
                    && self.tokens@[index + 1].kind == TokenKind::LParen));
                if index + 1 < self.tokens.len() {
                    let follows = self.tokens[index + 1].kind == TokenKind::LParen;
                    return follows;
                }
                return false;
            } else if kind == TokenKind::Semi || kind == TokenKind::LCurly || kind == TokenKind::RCurly {
                return false;
            }
            index += 1;
        }
        false
    }

    fn parse_specialization_expression(&mut self, callee: Expression) -> (expression: Option<Expression>)
        requires
            old(self).wf(),
            callee.span.source == old(self).source.spec_id(),
        ensures
            expression matches Some(e) ==> !(e.data is Binary),
            expression matches Some(e) ==> intrinsic_name_readable(&e, final(self).source.contents()),
            final(self).advance_result(old(self), expression is Some),
            expression matches Some(e) ==> e.span == (Span { source: callee.span.source, start: callee.span.start, end: final(self).tokens@[final(self).index - 1].span.end }),
        decreases old(self).tokens@.len() - old(self).index, 9nat,
    {
        self.expect(TokenKind::LessThan, "Expected `<`")?;
        let mut arguments: Vec<Expression> = Vec::new();
        while !self.peek_is(TokenKind::GreaterThan)
            invariant
                self.continues(old(self)),
                self.index > old(self).index,
            decreases self.tokens@.len() - self.index,
        {
            arguments.push(self.parse_prefix_expression()?);
            if self.peek_is(TokenKind::Comma) {
                self.consume();
            } else {
                break;
            }
        }
        let greater = self.expect(TokenKind::GreaterThan, "Expected `>` after compile-time arguments")?;
        Some(Expression {
            span: self.source.fromto(callee.span, greater.span),
            data: ExpressionData::Specialize { callee: Box::new(callee), arguments },
        })
    }

    fn parse_index_expression(&mut self, base: Expression) -> (expression: Option<Expression>)
        requires
            old(self).wf(),
            base.span.source == old(self).source.spec_id(),
        ensures
            expression matches Some(e) ==> !(e.data is Binary),
            expression matches Some(e) ==> intrinsic_name_readable(&e, final(self).source.contents()),
            final(self).advance_result(old(self), expression is Some),
            expression matches Some(e) ==> e.span == (Span { source: base.span.source, start: base.span.start, end: final(self).tokens@[final(self).index - 1].span.end }),
        decreases old(self).tokens@.len() - old(self).index, 9nat,
    {
        self.expect(TokenKind::LBrack, "Expected `[`")?;
        let index = self.parse_expression()?;
        let r_brack = self.expect(TokenKind::RBrack, "Expected `]`")?;
        Some(Expression {
            span: self.source.fromto(base.span, r_brack.span),
            data: ExpressionData::Index { base: Box::new(base), index: Box::new(index) },
        })
    }

    fn parse_call_expression(&mut self, callee: Expression) -> (expression: Option<Expression>)
        requires
            old(self).wf(),
            callee.span.source == old(self).source.spec_id(),
            intrinsic_name_readable(&callee, old(self).source.contents()),
        ensures
            expression matches Some(e) ==> !(e.data is Binary),
            expression matches Some(e) ==> intrinsic_name_readable(&e, final(self).source.contents()),
            final(self).advance_result(old(self), expression is Some),
            expression matches Some(e) ==> e.span == (Span { source: callee.span.source, start: callee.span.start, end: final(self).tokens@[final(self).index - 1].span.end }),
        decreases old(self).tokens@.len() - old(self).index, 9nat,
    {
        self.expect(TokenKind::LParen, "Expected `(`")?;
        let mut arguments: Vec<Expression> = Vec::new();
        while !self.peek_is(TokenKind::RParen)
            invariant
                self.continues(old(self)),
                self.index > old(self).index,
                forall|k: int| 0 <= k < arguments@.len() ==> (#[trigger] arguments@[k]).span.source == self.source.spec_id(),
            decreases self.tokens@.len() - self.index,
        {
            let ghost before = self.index as int;
            let argument = self.parse_expression()?;
            proof {
                assert(self.tokens@[before].span.source == self.source.spec_id());
            }
            arguments.push(argument);
            if self.peek_is(TokenKind::Comma) {
                self.consume();
            } else {
                break;
            }
        }
        let rparen = self.expect(TokenKind::RParen, "Expected `)` after call arguments")?;
        let span = self.source.fromto(callee.span, rparen.span);
        if let ExpressionData::Intrinsic { name } = &callee.data {
            let name_chars = self.source.span_chars(*name);
            if chars_equal(name_chars.as_slice(), &['i', 'm', 'p', 'o', 'r', 't']) {
                if arguments.len() != 1 {
                    self.diagnostics.push(error_str(
                        "Invalid import arguments",
                        span,
                        "@import expects exactly one string literal",
                    ));
                    return None;
                }
                let argument = &arguments[0];
                let is_string = match &argument.data {
                    ExpressionData::StringLiteral => true,
                    _ => false,
                };
                if !is_string {
                    self.diagnostics.push(error_str(
                        "Import path must be a string literal",
                        argument.span,
                        "Computed import paths are not supported yet",
                    ));
                    return None;
                }
                return Some(Expression { span, data: ExpressionData::Import { path: argument.span } });
            }
        }
        Some(Expression { span, data: ExpressionData::Call { callee: Box::new(callee), arguments } })
    }

    /// The binary operator at the current position, with its precedence.
    fn peek_binary_operator(&self) -> (operator: Option<(BinaryOperator, u8)>)
        requires
            self.wf(),
        ensures
            operator == (match self.peek_spec() {
                Some(kind) => binary_operator_of(kind),
                None => None,
            }),
    {
        match self.peek() {
            Some(token) => match token.kind {
                TokenKind::EqEq => Some((BinaryOperator::Equal, 1)),
                TokenKind::BangEq => Some((BinaryOperator::NotEqual, 1)),
                TokenKind::LessThanOrEqual => Some((BinaryOperator::LessThanOrEqual, 2)),
                TokenKind::LessThan => Some((BinaryOperator::LessThan, 2)),
                TokenKind::GreaterThanOrEqual => Some((BinaryOperator::GreaterThanOrEqual, 2)),
                TokenKind::GreaterThan => Some((BinaryOperator::GreaterThan, 2)),
                TokenKind::Plus => Some((BinaryOperator::Add, 3)),
                TokenKind::Minus => Some((BinaryOperator::Subtract, 3)),
                TokenKind::Star => Some((BinaryOperator::Multiply, 4)),
                TokenKind::Slash => Some((BinaryOperator::Divide, 4)),
                _ => None,
            },
            None => None,
        }
    }

    fn parse_primary(&mut self) -> (expression: Option<Expression>)
        requires
            old(self).wf(),
        ensures
            expression matches Some(e) ==> !(e.data is Binary),
            final(self).step_result(old(self), expression is Some, match expression { Some(e) => e.span, None => arbitrary() }),
            expression matches Some(e) ==> intrinsic_name_readable(&e, final(self).source.contents()),
            old(self).peek_spec() == Some(TokenKind::NumberLiteral) ==> (expression matches Some(e) && e.data is IntegerLiteral
                && final(self).index == old(self).index + 1 && final(self).diagnostics == old(self).diagnostics),
            fn_type_at(old(self).tokens@, old(self).index as int) ==> (expression matches Some(e) && e.data is TypeValue
                && final(self).index == typed_signature_end(old(self).tokens@, old(self).index as int)->0
                && final(self).diagnostics == old(self).diagnostics),
            fn_literal_at(old(self).tokens@, old(self).index as int) ==> (expression matches Some(e) && e.data is Function
                && final(self).index == old(self).index + 10 && final(self).diagnostics == old(self).diagnostics),
            old(self).peek_spec() == Some(TokenKind::At) && !(old(self).index + 1 < old(self).tokens@.len()
                && old(self).tokens@[old(self).index + 1].kind == TokenKind::Identifier) ==> {
                &&& expression is None
                &&& final(self).diagnostics@.len() == old(self).diagnostics@.len() + 1
                &&& final(self).diagnostics@.last()@.primary.text == "Expected identifier after `@`"@
            },
        decreases old(self).tokens@.len() - old(self).index, 16nat,
    {
        proof {
            reveal_strlit("Expected identifier after `@`");
        }
        if self.peek_is(TokenKind::At) {
            let at = self.expect(TokenKind::At, "Expected `@`")?;
            let name = self.expect(TokenKind::Identifier, "Expected identifier after `@`")?;
            return Some(Expression {
                span: self.source.fromto(at.span, name.span),
                data: ExpressionData::Intrinsic { name: name.span },
            });
        }
        if self.peek_is(TokenKind::StringLiteral) {
            let string_literal = self.expect(TokenKind::StringLiteral, "Expected string literal")?;
            return Some(Expression { span: string_literal.span, data: ExpressionData::StringLiteral });
        }
        if self.peek_is(TokenKind::LBrack) {
            let l_brack = self.expect(TokenKind::LBrack, "Expected `[`")?;
            let value = self.parse_expression()?;
            self.expect(TokenKind::Semi, "Expected `;`")?;
            let count = self.parse_expression()?;
            let r_brack = self.expect(TokenKind::RBrack, "Expected `]`")?;
            return Some(Expression {
                span: self.source.fromto(l_brack.span, r_brack.span),
                data: ExpressionData::ArrayRepeatInitialization { value: Box::new(value), size: Box::new(count) },
            });
        }
        if self.peek_is(TokenKind::True) {
            let true_ = self.expect(TokenKind::True, "Expected `true`")?;
            return Some(Expression { span: true_.span, data: ExpressionData::Boolean(true) });
        }
        if self.peek_is(TokenKind::False) {
            let false_ = self.expect(TokenKind::False, "Expected `false`")?;
            return Some(Expression { span: false_.span, data: ExpressionData::Boolean(false) });
        }
        if self.peek_is(TokenKind::NumberLiteral) {
            let number = self.expect(TokenKind::NumberLiteral, "Expected number literal")?;
            return Some(Expression { span: number.span, data: ExpressionData::IntegerLiteral });
        }
        if self.peek_is(TokenKind::Fn) {
            return self.parse_function_expression();
        }
        if self.peek_is(TokenKind::Identifier) {
            let identifier = self.expect(TokenKind::Identifier, "Expected identifier")?;
            return Some(Expression { span: identifier.span, data: ExpressionData::Name });
        }
        let (span, found) = match self.peek() {
            Some(token) => (token.span, token.kind.display()),
            None => (self.eof_span(), "EOF"),
        };
        let label = String::from_str("Expression may not start with `").concat(found).concat("`");
        self.diagnostics.push(Diagnostic::error(String::from_str("Unexpected start of expression"), span, label));
        None
    }

    /// Makes a function type from a signature whose parameters are all unnamed types.
    fn finish_function_type(&mut self, signature: ParsedFunctionSignature, Ghost(start): Ghost<int>) -> (expression: Option<Expression>)
        requires
            old(self).wf(),
            0 <= start < old(self).index,
            signature.fn_span == old(self).tokens@[start].span,
            signature.return_type.span.end == old(self).tokens@[old(self).index - 1].span.end,
            signature.return_type.span.source == old(self).source.spec_id(),
        ensures
            expression matches Some(e) ==> !(e.data is Binary),
            expression matches Some(e) ==> intrinsic_name_readable(&e, final(self).source.contents()),
            final(self).continues(old(self)),
            final(self).index == old(self).index,
            expression matches Some(e) ==> e.span == final(self).covering(start, final(self).index as int),
            expression is None ==> final(self).diagnostics@.len() > old(self).diagnostics@.len(),
            signature.comptime_args@.len() == 0
                && (forall|k: int| 0 <= k < signature.runtime_args@.len() ==> #[trigger] signature.runtime_args@[k] is Unnamed)
                ==> (expression matches Some(e) && e.data is TypeValue && final(self).diagnostics == old(self).diagnostics),
            expression matches Some(e) ==> e.data is TypeValue,
    {
        if signature.comptime_args.len() > 0 {
            let first = &signature.comptime_args[0];
            self.diagnostics.push(error_str(
                "Comptime parameters in function types are not supported yet",
                first.span,
                "remove the comptime parameter list",
            ));
            return None;
        }
        let mut parameters: Vec<TypeExpression> = Vec::new();
        let mut runtime_args = signature.runtime_args;
        while runtime_args.len() > 0
            invariant
                self.continues(old(self)),
                self.index == old(self).index,
                self.diagnostics == old(self).diagnostics,
                (forall|k: int| 0 <= k < signature.runtime_args@.len() ==> #[trigger] signature.runtime_args@[k] is Unnamed)
                    ==> (forall|k: int| 0 <= k < runtime_args@.len() ==> #[trigger] runtime_args@[k] is Unnamed),
            decreases runtime_args@.len(),
        {
            let parameter = runtime_args.remove(0);
            match parameter {
                ParsedFunctionParameter::Unnamed(type_expression) => {
                    parameters.push(type_expression);
                },
                ParsedFunctionParameter::Named(parameter) => {
                    self.diagnostics.push(error_str(
                        "Named function-type parameters are not supported yet",
                        parameter.span,
                        "write only the parameter type",
                    ));
                    return None;
                },
            }
        }
        let type_expression = TypeExpression {
            span: self.source.fromto(signature.fn_span, signature.return_type.span),
            data: TypeExpressionData::Function { parameters, return_type: Box::new(signature.return_type) },
        };
        Some(Expression { span: type_expression.span, data: ExpressionData::TypeValue(type_expression) })
    }

    /// Makes a function literal from a signature whose parameters are all named,
    /// and parses its body.
    fn finish_function_literal(&mut self, signature: ParsedFunctionSignature, Ghost(start): Ghost<int>) -> (expression: Option<Expression>)
        requires
            old(self).wf(),
            0 <= start < old(self).index,
            signature.fn_span == old(self).tokens@[start].span,
        ensures
            expression matches Some(e) ==> !(e.data is Binary),
            expression matches Some(e) ==> intrinsic_name_readable(&e, final(self).source.contents()),
            final(self).continues(old(self)),
            expression matches Some(e) ==> final(self).index > old(self).index && e.span == final(self).covering(start, final(self).index as int),
            expression is None ==> final(self).diagnostics@.len() > old(self).diagnostics@.len(),
            expression matches Some(e) ==> e.data is Function,
            signature.comptime_args@.len() == 0 && signature.runtime_args@.len() == 0
                && return_number_block_at(old(self).tokens@, old(self).index as int) ==> (expression is Some
                && final(self).index == old(self).index + 5 && final(self).diagnostics == old(self).diagnostics),
        decreases old(self).tokens@.len() - old(self).index, 31nat,
    {
        let mut runtime_args: Vec<Parameter> = Vec::new();
        let mut parsed = signature.runtime_args;
        while parsed.len() > 0
            invariant
                self.continues(old(self)),
                self.index == old(self).index,
                self.diagnostics == old(self).diagnostics,
                signature.runtime_args@.len() == 0 ==> parsed@.len() == 0,
            decreases parsed@.len(),
        {
            let parameter = parsed.remove(0);
            match parameter {
                ParsedFunctionParameter::Named(parameter) => {
                    runtime_args.push(parameter);
                },
                ParsedFunctionParameter::Unnamed(type_expression) => {
                    self.diagnostics.push(error_str(
                        "Function implementation parameters require names",
                        type_expression.span,
                        "add an internal parameter name",
                    ));
                    return None;
                },
            }
        }
        let body = self.parse_block()?;
        let span = self.source.fromto(signature.fn_span, body.span);
        Some(Expression {
            span,
            data: ExpressionData::Function(Rc::new(FunctionExpression {
                comptime_args: signature.comptime_args,
                runtime_args,
                return_type: signature.return_type,
                body,
            })),
        })
    }

    fn parse_function_signature(&mut self) -> (signature: Option<ParsedFunctionSignature>)
        requires
            old(self).wf(),
        ensures
            final(self).continues(old(self)),
            signature matches Some(s) ==> {
                &&& final(self).index > old(self).index
                &&& s.fn_span == old(self).tokens@[old(self).index as int].span
                &&& s.return_type.span.end == final(self).tokens@[final(self).index - 1].span.end
                &&& s.return_type.span.source == old(self).source.spec_id()
            },
            signature is None ==> final(self).diagnostics@.len() > old(self).diagnostics@.len(),
            fn_signature_at(old(self).tokens@, old(self).index as int) ==> (signature matches Some(s)
                && s.comptime_args@.len() == 0 && s.runtime_args@.len() == 0
                && final(self).index == old(self).index + 5 && final(self).diagnostics == old(self).diagnostics),
            typed_signature_end(old(self).tokens@, old(self).index as int) matches Some(end) ==> (signature matches Some(s)
                && s.comptime_args@.len() == 0
                && (forall|k: int| 0 <= k < s.runtime_args@.len() ==> #[trigger] s.runtime_args@[k] is Unnamed)
                && final(self).index == end && final(self).diagnostics == old(self).diagnostics),
        decreases old(self).tokens@.len() - old(self).index, 14nat,
    {
        let fn_ = self.expect(TokenKind::Fn, "Expected `fn`")?;
        let comptime_args = if self.peek_is(TokenKind::LessThan) {
            self.expect(TokenKind::LessThan, "Expected `<` before comptime parameters")?;
            let parameters = self.parse_parameters_until(TokenKind::GreaterThan)?;
            self.expect(TokenKind::GreaterThan, "Expected `>` after comptime parameters")?;
            parameters
        } else {
            Vec::new()
        };
        self.expect(TokenKind::LParen, "Expected `(` before parameters")?;
        let ghost params_start = self.index as int;
        let runtime_args = self.parse_provisional_parameters()?;
        proof {
            if name_list_close(self.tokens@, params_start) is Some {
                lemma_name_list_closes(self.tokens@, params_start);
            }
        }
        let rparen = self.expect(TokenKind::RParen, "Expected `)` after parameters")?;
        let return_type = if self.peek_is(TokenKind::RArrow) {
            self.consume();
            self.parse_type_expression()?
        } else {
            TypeExpression { span: rparen.span, data: TypeExpressionData::Unit }
        };
        Some(ParsedFunctionSignature { fn_span: fn_.span, comptime_args, runtime_args, return_type })
    }

    fn parse_named_parameter(&mut self) -> (parameter: Option<Parameter>)
        requires
            old(self).wf(),
        ensures
            final(self).step_result(old(self), parameter is Some, match parameter { Some(p) => p.span, None => arbitrary() }),
        decreases old(self).tokens@.len() - old(self).index, 11nat,
    {
        let identifier = self.expect(TokenKind::Identifier, "Expected parameter name")?;
        self.expect(TokenKind::Colon, "Expected `:` after parameter name")?;
        let type_annotation = self.parse_type_expression()?;
        Some(Parameter {
            span: self.source.fromto(identifier.span, type_annotation.span),
            name: identifier.span,
            type_annotation,
        })
    }

    fn parse_parameters_until(&mut self, closing: TokenKind) -> (parameters: Option<Vec<Parameter>>)
        requires
            old(self).wf(),
        ensures
            final(self).continues(old(self)),
            parameters is None ==> final(self).diagnostics@.len() > old(self).diagnostics@.len(),
            old(self).peek_spec() == Some(closing) ==> (parameters matches Some(ps) && ps@.len() == 0 && final(self).index == old(self).index),
            parameters matches Some(ps) ==> (old(self).peek_spec() != Some(closing) ==> ps@.len() > 0 && final(self).index > old(self).index),
            parameters is Some ==> final(self).peek_spec() == Some(closing) || final(self).peek_spec() != Some(TokenKind::Comma),
        decreases old(self).tokens@.len() - old(self).index, 12nat,
    {
        let mut parameters: Vec<Parameter> = Vec::new();
        while !self.peek_is(closing)
            invariant
                self.continues(old(self)),
                old(self).peek_spec() == Some(closing) ==> parameters@.len() == 0 && self.index == old(self).index,
                parameters@.len() == 0 ==> self.index == old(self).index,
                parameters@.len() > 0 ==> self.index > old(self).index,
            ensures
                self.peek_spec() == Some(closing) || self.peek_spec() != Some(TokenKind::Comma),
                parameters@.len() == 0 ==> self.peek_spec() == Some(closing),
            decreases self.tokens@.len() - self.index,
        {
            parameters.push(self.parse_named_parameter()?);
            if self.peek_is(TokenKind::Comma) {
                self.consume();
            } else {
                break;
            }
        }
        Some(parameters)
    }

    fn parse_provisional_parameters(&mut self) -> (parameters: Option<Vec<ParsedFunctionParameter>>)
        requires
            old(self).wf(),
        ensures
            final(self).continues(old(self)),
            parameters is None ==> final(self).diagnostics@.len() > old(self).diagnostics@.len(),
            old(self).peek_spec() == Some(TokenKind::RParen) ==> (parameters matches Some(ps) && ps@.len() == 0 && final(self).index == old(self).index
                && final(self).diagnostics == old(self).diagnostics),
            name_list_close(old(self).tokens@, old(self).index as int) matches Some(close) ==> (parameters matches Some(ps)
                && (forall|k: int| 0 <= k < ps@.len() ==> #[trigger] ps@[k] is Unnamed)
                && final(self).index == close && final(self).diagnostics == old(self).diagnostics),
            parameters matches Some(ps) ==> (old(self).peek_spec() != Some(TokenKind::RParen) ==> ps@.len() > 0 && final(self).index > old(self).index),
            parameters is Some ==> final(self).peek_spec() == Some(TokenKind::RParen) || final(self).peek_spec() != Some(TokenKind::Comma),
        decreases old(self).tokens@.len() - old(self).index, 12nat,
    {
        let mut parameters: Vec<ParsedFunctionParameter> = Vec::new();
        while !self.peek_is(TokenKind::RParen)
            invariant
                self.continues(old(self)),
                old(self).peek_spec() == Some(TokenKind::RParen) ==> self.diagnostics == old(self).diagnostics,
                name_list_close(old(self).tokens@, old(self).index as int) matches Some(close) ==> {
                    &&& self.diagnostics == old(self).diagnostics
                    &&& forall|k: int| 0 <= k < parameters@.len() ==> #[trigger] parameters@[k] is Unnamed
                    &&& (self.index == close || name_list_close(self.tokens@, self.index as int) == Some(close))
                },
                old(self).peek_spec() == Some(TokenKind::RParen) ==> parameters@.len() == 0 && self.index == old(self).index,
                parameters@.len() == 0 ==> self.index == old(self).index,
                parameters@.len() > 0 ==> self.index > old(self).index,
            ensures
                self.peek_spec() == Some(TokenKind::RParen) || self.peek_spec() != Some(TokenKind::Comma),
                parameters@.len() == 0 ==> self.peek_spec() == Some(TokenKind::RParen),
                name_list_close(old(self).tokens@, old(self).index as int) matches Some(close) ==> self.index == close,
            decreases self.tokens@.len() - self.index,
        {
            let ghost listed = name_list_close(old(self).tokens@, old(self).index as int) is Some;
            proof {
                if listed {
                    let close = name_list_close(old(self).tokens@, old(self).index as int)->0;
                    if self.index == close {
                        lemma_name_list_closes(old(self).tokens@, old(self).index as int);
                    }
                    assert(name_list_close(self.tokens@, self.index as int) == Some(close));
                }
            }
            let parameter = if self.peek_is(TokenKind::Identifier) && self.peek_offset_is(1, TokenKind::Colon) {
                ParsedFunctionParameter::Named(self.parse_named_parameter()?)
            } else {
                ParsedFunctionParameter::Unnamed(self.parse_type_expression()?)
            };
            parameters.push(parameter);
            if self.peek_is(TokenKind::Comma) {
                self.consume();
            } else {
                break;
            }
        }
        Some(parameters)
    }

    fn parse_function_expression(&mut self) -> (expression: Option<Expression>)
        requires
            old(self).wf(),
        ensures
            expression matches Some(e) ==> !(e.data is Binary),
            expression matches Some(e) ==> intrinsic_name_readable(&e, final(self).source.contents()),
            final(self).step_result(old(self), expression is Some, match expression { Some(e) => e.span, None => arbitrary() }),
            fn_type_at(old(self).tokens@, old(self).index as int) ==> (expression matches Some(e) && e.data is TypeValue
                && final(self).index == typed_signature_end(old(self).tokens@, old(self).index as int)->0
                && final(self).diagnostics == old(self).diagnostics),
            fn_literal_at(old(self).tokens@, old(self).index as int) ==> (expression matches Some(e) && e.data is Function
                && final(self).index == old(self).index + 10 && final(self).diagnostics == old(self).diagnostics),
        decreases old(self).tokens@.len() - old(self).index, 15nat,
    {
        let ghost start = self.index as int;
        let signature = self.parse_function_signature()?;
        if self.peek_is(TokenKind::LCurly) {
            self.finish_function_literal(signature, Ghost(start))
        } else {
            self.finish_function_type(signature, Ghost(start))
        }
    }

    fn parse_type_expression(&mut self) -> (type_expression: Option<TypeExpression>)
        requires
            old(self).wf(),
        ensures
            final(self).step_result(old(self), type_expression is Some, match type_expression { Some(t) => t.span, None => arbitrary() }),
            old(self).peek_spec() == Some(TokenKind::Identifier) ==> (type_expression is Some
                && final(self).index == old(self).index + 1 && final(self).diagnostics == old(self).diagnostics),
        decreases old(self).tokens@.len() - old(self).index, 10nat,
    {
        if self.peek_is(TokenKind::Fn) {
            let fn_ = self.expect(TokenKind::Fn, "Expected `fn`")?;
            self.expect(TokenKind::LParen, "Expected `(`")?;
            let mut parameters: Vec<TypeExpression> = Vec::new();
            while !self.peek_is(TokenKind::RParen)
                invariant
                    self.continues(old(self)),
                    old(self).peek_spec() == Some(TokenKind::Fn),
                    self.index > old(self).index,
                decreases self.tokens@.len() - self.index,
            {
                let arg_type = self.parse_type_expression()?;
                parameters.push(arg_type);
                if self.peek_is(TokenKind::Comma) {
                    self.expect(TokenKind::Comma, "Expected `,`")?;
                } else {
                    break;
                }
            }
            self.expect(TokenKind::RParen, "Expected `)`")?;
            self.expect(TokenKind::RArrow, "Expected `->`")?;
            let return_type = self.parse_type_expression()?;
            return Some(TypeExpression {
                span: self.source.fromto(fn_.span, return_type.span),
                data: TypeExpressionData::Function { parameters, return_type: Box::new(return_type) },
            });
        }
        if self.peek_is(TokenKind::LBrack) {
            let l_brack = self.expect(TokenKind::LBrack, "Expected `[`")?;
            let size = self.parse_expression()?;
            self.expect(TokenKind::RBrack, "Expected `]`")?;
            let base_type = self.parse_type_expression()?;
            return Some(TypeExpression {
                span: self.source.fromto(l_brack.span, base_type.span),
                data: TypeExpressionData::FixedArray { size: Box::new(size), base_type: Box::new(base_type) },
            });
        }
        let identifier = self.expect(TokenKind::Identifier, "Expected Type")?;
        Some(TypeExpression { span: identifier.span, data: TypeExpressionData::Identifier })
    }

    fn parse_block(&mut self) -> (block: Option<Block>)
        requires
            old(self).wf(),
        ensures
            final(self).step_result(old(self), block is Some, match block { Some(b) => b.span, None => arbitrary() }),
            return_number_block_at(old(self).tokens@, old(self).index as int) ==> (block is Some
                && final(self).index == old(self).index + 5 && final(self).diagnostics == old(self).diagnostics),
        decreases old(self).tokens@.len() - old(self).index, 28nat,
    {
        let lcurly = self.expect(TokenKind::LCurly, "Expected `{` for block")?;
        let mut statements: Vec<Statement> = Vec::new();
        while !self.peek_is(TokenKind::RCurly)
            invariant
                self.continues(old(self)),
                self.index > old(self).index,
                return_number_block_at(old(self).tokens@, old(self).index as int) ==> self.diagnostics == old(self).diagnostics
                    && (self.index == old(self).index + 1 || self.index == old(self).index + 4),
            decreases self.tokens@.len() - self.index,
        {
            statements.push(self.parse_statement()?);
        }
        let rcurly = self.expect(TokenKind::RCurly, "Expected `}` for block")?;
        Some(Block { span: self.source.fromto(lcurly.span, rcurly.span), statements })
    }

    fn parse_let_statement(&mut self) -> (statement: Option<Statement>)
        requires
            old(self).wf(),
        ensures
            final(self).step_result(old(self), statement is Some, match statement { Some(s) => s.span, None => arbitrary() }),
        decreases old(self).tokens@.len() - old(self).index, 29nat,
    {
        let let_ = self.expect(TokenKind::Let, "Expected let")?;
        let mutable = if self.peek_is(TokenKind::Mut) {
            self.expect(TokenKind::Mut, "Expected `mut`")?;
            true
        } else {
            false
        };
        let name = self.expect(TokenKind::Identifier, "Expected binding name after `let`")?;
        let type_annotation = if self.peek_is(TokenKind::Colon) {
            let _colon = self.expect(TokenKind::Colon, "Expected `:`")?;
            let type_annotation = self.parse_type_expression()?;
            Some(type_annotation)
        } else {
            None
        };
        self.expect(TokenKind::Eq, "Expected `=` after binding name")?;
        let expression = self.parse_expression()?;
        let semi = self.expect(TokenKind::Semi, "Expected `;` after local binding")?;
        Some(Statement {
            span: self.source.fromto(let_.span, semi.span),
            data: StatementData::Binding(Binding {
                phase: Phase::Runtime,
                mutable,
                name: name.span,
                type_annotation,
                expression,
            }),
        })
    }

    fn parse_return_statement(&mut self) -> (statement: Option<Statement>)
        requires
            old(self).wf(),
        ensures
            final(self).step_result(old(self), statement is Some, match statement { Some(s) => s.span, None => arbitrary() }),
            return_number_at(old(self).tokens@, old(self).index as int) ==> (statement is Some
                && final(self).index == old(self).index + 3 && final(self).diagnostics == old(self).diagnostics),
        decreases old(self).tokens@.len() - old(self).index, 29nat,
    {
        let return_ = self.expect(TokenKind::Return, "Expected `return`")?;
        if self.peek_is(TokenKind::Semi) {
            let semi = self.expect(TokenKind::Semi, "Expected `;`")?;
            return Some(Statement {
                span: self.source.fromto(return_.span, semi.span),
                data: StatementData::Return(None),
            });
        }
        let expression = self.parse_expression()?;
        let semi = self.expect(TokenKind::Semi, "Expected `;`")?;
        Some(Statement {
            span: self.source.fromto(return_.span, semi.span),
            data: StatementData::Return(Some(expression)),
        })
    }

    fn parse_statement(&mut self) -> (statement: Option<Statement>)
        requires
            old(self).wf(),
        ensures
            final(self).step_result(old(self), statement is Some, match statement { Some(s) => s.span, None => arbitrary() }),
            return_number_at(old(self).tokens@, old(self).index as int) ==> (statement is Some
                && final(self).index == old(self).index + 3 && final(self).diagnostics == old(self).diagnostics),
        decreases old(self).tokens@.len() - old(self).index, 30nat,
    {
        let kind = match self.peek() {
            Some(token) => Some(token.kind),
            None => None,
        };
        match kind {
            Some(TokenKind::Let) => self.parse_let_statement(),
            Some(TokenKind::Return) => self.parse_return_statement(),
            Some(TokenKind::While) => self.parse_while_statement(),
            Some(TokenKind::If) => self.parse_if_statement(),
            Some(TokenKind::Identifier) => {
                let target_or_expression = self.parse_expression()?;
                if self.peek_is(TokenKind::Eq) {
                    self.expect(TokenKind::Eq, "Expected `=` for assignment")?;
                    let value = self.parse_expression()?;
                    let semi = self.expect(TokenKind::Semi, "Expected `;` after assignment")?;
                    Some(Statement {
                        span: self.source.fromto(target_or_expression.span, semi.span),
                        data: StatementData::Assignment { target: target_or_expression, expression: value },
                    })
                } else {
                    let semi = self.expect(TokenKind::Semi, "Expected `;` after statement expression")?;
                    Some(Statement {
                        span: self.source.fromto(target_or_expression.span, semi.span),
                        data: StatementData::Expression(target_or_expression),
                    })
                }
            },
            _ => {
                let (span, found) = match self.peek() {
                    Some(token) => (token.span, token.kind.display()),
                    None => (self.eof_span(), "EOF"),
                };
                let label = String::from_str("`").concat(found).concat("` is not a valid statement starter");
                self.diagnostics.push(Diagnostic::error(String::from_str("Unexpected start of Statement"), span, label));
                None
            },
        }
    }

    fn parse_while_statement(&mut self) -> (statement: Option<Statement>)
        requires
            old(self).wf(),
        ensures
            final(self).step_result(old(self), statement is Some, match statement { Some(s) => s.span, None => arbitrary() }),
        decreases old(self).tokens@.len() - old(self).index, 29nat,
    {
        let while_ = self.expect(TokenKind::While, "Expected `while`")?;
        let condition = self.parse_expression()?;
        let block = self.parse_block()?;
        Some(Statement {
            span: self.source.fromto(while_.span, block.span),
            data: StatementData::While(While { condition, while_block: block }),
        })
    }

    fn parse_if_statement(&mut self) -> (statement: Option<Statement>)
        requires
            old(self).wf(),
        ensures
            final(self).step_result(old(self), statement is Some, match statement { Some(s) => s.span, None => arbitrary() }),
        decreases old(self).tokens@.len() - old(self).index, 29nat,
    {
        let if_ = self.expect(TokenKind::If, "Expected `if`")?;
        let condition = self.parse_expression()?;
        let body = self.parse_block()?;
        let (else_if, end_span) = if self.peek_is(TokenKind::Else) {
            self.expect(TokenKind::Else, "Expected `else`")?;
            if self.peek_is(TokenKind::If) {
                let else_if = self.parse_if_statement()?;
                let span = else_if.span;
                (Some(ElseBranch::ElseIf(Box::new(else_if))), span)
            } else {
                let body = self.parse_block()?;
                let span = body.span;
                (Some(ElseBranch::Else(body)), span)
            }
        } else {
            let span = body.span;
            (None, span)
        };
        Some(Statement {
            span: self.source.fromto(if_.span, end_span),
            data: StatementData::If(If { condition, then_block: body, else_: else_if }),
        })
    }

    /// The kind of the token at the current position, if any is left.
    /// The precedence of the binary operator that comes next; -1 when none does.
    closed spec fn next_precedence(&self) -> int {
        match self.peek_spec() {
            Some(kind) => match binary_operator_of(kind) {
                Some((_, p)) => p as int,
                None => -1,
            },
            None => -1,
        }
    }

    closed spec fn peek_spec(&self) -> Option<TokenKind> {
        if self.index < self.tokens@.len() {
            Some(self.tokens@[self.index as int].kind)
        } else {
            None
        }
    }

    fn peek(&self) -> (token: Option<Token>)
        ensures
            token == (if self.index < self.tokens@.len() { Some(self.tokens@[self.index as int]) } else { None }),
    {
        self.peek_offset(0)
    }

    fn peek_offset(&self, offset: usize) -> (token: Option<Token>)
        ensures
            token == (if self.index + offset < self.tokens@.len() {
                Some(self.tokens@[self.index + offset])
            } else {
                None
            }),
    {
        if offset < self.tokens.len() && self.index < self.tokens.len() - offset {
            Some(self.tokens[self.index + offset])
        } else {
            None
        }
    }

    fn peek_is(&self, kind: TokenKind) -> (is: bool)
        ensures
            is == (self.peek_spec() == Some(kind)),
    {
        match self.peek() {
            Some(token) => token.kind == kind,
            None => false,
        }
    }

    fn peek_offset_is(&self, offset: usize, kind: TokenKind) -> (is: bool)
        ensures
            is == (self.index + offset < self.tokens@.len() && self.tokens@[self.index + offset].kind == kind),
    {
        match self.peek_offset(offset) {
            Some(token) => token.kind == kind,
            None => false,
        }
    }

    fn consume(&mut self) -> (token: Option<Token>)
        requires
            old(self).wf(),
        ensures
            final(self).continues(old(self)),
            final(self).diagnostics == old(self).diagnostics,
            token == (if old(self).index < old(self).tokens@.len() { Some(old(self).tokens@[old(self).index as int]) } else { None }),
            final(self).index == (if old(self).index < old(self).tokens@.len() { old(self).index + 1 } else { old(self).index as int }),
    {
        if self.index < self.tokens.len() {
            let token = self.tokens[self.index];
            self.index += 1;
            Some(token)
        } else {
            None
        }
    }

    /// The empty span at the last character of the file.
    fn eof_span(&self) -> (span: Span)
        requires
            self.wf(),
        ensures
            span.source == self.source.spec_id(),
    {
        proof {
            assert(self.tokens@[0].span.start < self.tokens@[0].span.end);
        }
        self.source.eof_span()
    }

    /// Consumes a token of the given kind, or reports that another token
    /// (or the end of the file) stands where it was expected.
    fn expect(&mut self, kind: TokenKind, description: &str) -> (token: Option<Token>)
        requires
            old(self).wf(),
        ensures
            final(self).continues(old(self)),
            old(self).peek_spec() == Some(kind) ==> {
                &&& token == Some(old(self).tokens@[old(self).index as int])
                &&& final(self).index == old(self).index + 1
                &&& final(self).diagnostics == old(self).diagnostics
            },
            old(self).peek_spec() != Some(kind) ==> {
                &&& token is None
                &&& final(self).index == old(self).index
                &&& final(self).diagnostics@.len() == old(self).diagnostics@.len() + 1
                &&& final(self).diagnostics@.last()@ == error_view(
                    if old(self).index < old(self).tokens@.len() { "Unexpected Token"@ } else { "Expected Token found EOF"@ },
                    if old(self).index < old(self).tokens@.len() {
                        old(self).tokens@[old(self).index as int].span
                    } else {
                        Span {
                            source: old(self).source.spec_id(),
                            start: old(self).tokens@.last().span.end,
                            end: old(self).tokens@.last().span.end,
                        }
                    },
                    description@,
                )
            },
    {
        let Some(token) = self.peek() else {
            let last = self.tokens[self.tokens.len() - 1];
            let span = self.source.span(last.span.end, last.span.end);
            self.diagnostics.push(error_str("Expected Token found EOF", span, description));
            return None;
        };
        if token.kind != kind {
            self.diagnostics.push(error_str("Unexpected Token", token.span, description));
            return None;
        }
        if self.index < self.tokens.len() {
            self.index += 1;
        }
        Some(token)
    }

    fn parse_member_expression(&mut self, base: Expression) -> (expression: Option<Expression>)
        requires
            old(self).wf(),
            base.span.source == old(self).source.spec_id(),
        ensures
            expression matches Some(e) ==> !(e.data is Binary),
            expression matches Some(e) ==> intrinsic_name_readable(&e, final(self).source.contents()),
            final(self).advance_result(old(self), expression is Some),
            expression matches Some(e) ==> e.span == (Span { source: base.span.source, start: base.span.start, end: final(self).tokens@[final(self).index - 1].span.end }),
        decreases old(self).tokens@.len() - old(self).index, 9nat,
    {
        self.expect(TokenKind::Dot, "Expected `.`")?;
        let name = self.expect(TokenKind::Identifier, "Expected member name after `.`")?;
        Some(Expression {
            span: self.source.fromto(base.span, name.span),
            data: ExpressionData::Member { base: Box::new(base), name: name.span },
        })
    }
}

} // verus!
