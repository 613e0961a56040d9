//! The front end as one step: tokenize, parse and elaborate a source file.

use vstd::prelude::*;
use crate::ast::Program;
use crate::diagnostics::Diagnostic;
use crate::elaboration::{ElaboratedProgram, Elaborator, builtin_name, lemma_fresh_lookup_absent, program_within, single_literal_declaration, text_at};
use crate::elaboration::analysis::{integer_literal, literal_type};
use crate::parser::{Parser, number_binding_item, simple_bindings, single_operand_binding, tokens_span};
use crate::source::{SourceFileManager, SourceId};
use crate::diagnostics::diagnostics_view;
use crate::tokenizer::{Tokenizer, lemma_tokens_in_order, lex};
use crate::types::{TargetInfo, spec_maximum, supported_width};

verus! {

/// The file holds no lexical error.
pub open spec fn lexically_valid(sources: &SourceFileManager, source: SourceId) -> bool {
    lex(sources.file_contents(source), source).1.len() == 0
}

/// Tokenizes and parses the file `source` of `sources`: its program, or the
/// diagnostics of the first stage that reports any. A file with a lexical
/// error gives exactly its lexical errors.
pub fn parse_file(sources: &SourceFileManager, source: SourceId) -> (result: Result<Program, Vec<Diagnostic>>)
    requires
        source.0 < sources.view_files().len(),
    ensures
        result matches Err(diagnostics) ==> diagnostics@.len() > 0,
        !lexically_valid(sources, source) ==> (result matches Err(diagnostics)
            && diagnostics_view(diagnostics@) == lex(sources.file_contents(source), source).1),
        result is Ok ==> lexically_valid(sources, source),
        lexically_valid(sources, source) && simple_bindings(lex(sources.file_contents(source), source).0)
            ==> (result matches Ok(program) && program.items@.len() == lex(sources.file_contents(source), source).0.len() / 5),
        lexically_valid(sources, source) && simple_bindings(lex(sources.file_contents(source), source).0)
            ==> (result matches Ok(program) && forall|k: int| 0 <= k < program.items@.len() ==>
                number_binding_item(#[trigger] program.items@[k], lex(sources.file_contents(source), source).0, source, 5 * k)),
        lexically_valid(sources, source) && single_operand_binding(lex(sources.file_contents(source), source).0)
            ==> (result matches Ok(program) && program.items@.len() == 1),
{
    let file = sources.get_file(source);
    let len = file.len();
    let tokens = match Tokenizer::new(file).tokenize() {
        Ok(tokens) => tokens,
        Err(diagnostics) => {
            return Err(diagnostics);
        },
    };
    proof {
        lemma_tokens_in_order(file.contents(), file.spec_id());
        assert(tokens@ == lex(file.contents(), file.spec_id()).0);
    }
    Parser::new(file, tokens.as_slice()).parse()
}

/// The file `entry` is the one binding `comp name = number ;`, whose number
/// is an integer literal that fits its type and whose name is not built in.
pub open spec fn single_number_file(sources: &SourceFileManager, entry: SourceId, target: TargetInfo) -> bool {
    let tokens = lex(sources.file_contents(entry), entry).0;
    &&& lexically_valid(sources, entry)
    &&& tokens.len() == 5
    &&& simple_bindings(tokens)
    &&& !builtin_name(text_at(sources, tokens[1].span))
    &&& integer_literal(text_at(sources, tokens_span(tokens, entry, 3, 4))) matches Some(literal)
        && literal.magnitude <= spec_maximum(literal_type(literal.suffix, None), target)
}

/// Compiles the file `entry` of `sources` as far as the elaborated program:
/// the diagnostics of the first stage that reports any, else the program.
/// A file with a lexical error gives exactly its lexical errors.
pub fn compile(sources: &SourceFileManager, entry: SourceId, target: TargetInfo) -> (result: Result<ElaboratedProgram, Vec<Diagnostic>>)
    requires
        entry.0 < sources.view_files().len(),
        supported_width(target),
    ensures
        result matches Err(diagnostics) ==> diagnostics@.len() > 0,
        !lexically_valid(sources, entry) ==> (result matches Err(diagnostics)
            && diagnostics_view(diagnostics@) == lex(sources.file_contents(entry), entry).1),
        result is Ok ==> lexically_valid(sources, entry),
        lexically_valid(sources, entry) && lex(sources.file_contents(entry), entry).0.len() == 0 ==> result is Ok,
        single_number_file(sources, entry, target) ==> result is Ok,
        result matches Ok(elaborated) ==> program_within(&elaborated),
        result matches Ok(elaborated) ==> (elaborated.entry_symbol matches Some(main) ==> {
            &&& main.0 < elaborated.symbols.symbols@.len()
            &&& elaborated.symbols.symbols@[main.0 as int].name@ == seq!['m', 'a', 'i', 'n']
        }),
{
    let program = match parse_file(sources, entry) {
        Ok(program) => program,
        Err(diagnostics) => {
            return Err(diagnostics);
        },
    };
    let elaborator = Elaborator::new(sources, entry, target);
    proof {
        if single_number_file(sources, entry, target) {
            let tokens = lex(sources.file_contents(entry), entry).0;
            assert(program.items@.len() == 1);
            assert(number_binding_item(program.items@[0], tokens, entry, 0));
            lemma_fresh_lookup_absent(elaborator, text_at(sources, tokens[1].span));
            assert(single_literal_declaration(elaborator, elaborator.entry_module, program));
        }
    }
    elaborator.elaborate(program)
}

} // verus!
