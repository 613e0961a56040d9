//! Elaboration: name resolution, type checking and compile-time evaluation
//! of a parsed program.

use vstd::prelude::*;
use crate::ast::{Binding, ItemData, Program};
use crate::comptime::{ComptimeValue, FunctionId, FunctionStore, FunctionTemplateStore, ValueStore};
use crate::diagnostics::{Diagnostic, error_str};
use crate::hir::{
    HirBinding, HirBlock, HirExpression, HirFunctionExpression, HirPlace, HirProgram, HirStatement, block_refs_valid,
    expression_refs_valid, function_refs_valid, lemma_block_refs_grow, lemma_expression_refs_grow, lemma_function_refs_grow,
    lemma_place_refs_grow, lemma_statement_refs_grow, place_refs_valid, statement_refs_valid,
};
use crate::source::{SourceFileManager, SourceId, Span, span_contents, span_readable};
use crate::symbols::{
    Environment, ExternAbi, Module, ModuleId, ModuleStore, ScopeId, Symbol, SymbolId, SymbolKind,
    SymbolTable, bindings_named, define_spec, environment_wf, lemma_define_keeps_other_names, lemma_lookup_after_define, lookup_from_spec, lemma_define_keeps_bindings_named, lemma_growth_keeps_bindings_named, lemma_lookup_gives_named_symbol,
    lemma_module_ids_convert, binding_lookup,
};
use crate::types::{IntegerType, SpecializationKey, TargetInfo, Type, integer_type_name, supported_width};
use std::collections::HashMap;
use std::rc::Rc;

pub mod analysis;
pub mod dependencies;
pub mod evaluation;

use dependencies::{PendingBinding, WorkStatus, is_comptime_binding, pending_literal};
use analysis::literal_binding;

verus! {

broadcast use vstd::std_specs::hash::group_hash_axioms;

/// How many steps of elaboration and compile-time evaluation one program may
/// take; a compile-time loop or recursion that does not end stops here.
pub const ELABORATION_FUEL: u64 = 10_000_000;

/// The result of elaboration: the symbols, the compile-time values, the
/// functions created at compile time, the elaborated bindings and the entry point.
#[derive(Debug)]
pub struct ElaboratedProgram {
    pub symbols: SymbolTable,
    pub values: ValueStore,
    pub functions: FunctionStore,
    pub hir: HirProgram,
    pub entry_symbol: Option<SymbolId>,
}

/// Resolves the names of a program, checks its types and evaluates its
/// compile-time bindings.
pub struct Elaborator<'src> {
    pub target: TargetInfo,
    pub sources: &'src SourceFileManager,
    pub symbols: SymbolTable,
    pub environment: Environment,
    pub diagnostics: Vec<Diagnostic>,
    pub pending_bindings: HashMap<u32, PendingBinding>,
    pub binding_order: Vec<SymbolId>,
    pub elaboration_status: HashMap<u32, WorkStatus>,
    pub elaborated_bindings: HashMap<u32, Rc<HirBinding>>,
    pub elaboration_stack: Vec<SymbolId>,
    pub evaluation_status: HashMap<u32, WorkStatus>,
    pub evaluation_stack: Vec<SymbolId>,
    pub entry_module: ModuleId,
    pub modules: ModuleStore,
    pub values: ValueStore,
    pub functions: FunctionStore,
    pub function_templates: FunctionTemplateStore,
    pub specializations: Vec<(SpecializationKey, FunctionId)>,
    pub active_specializations: Vec<SpecializationKey>,
    pub frames: Vec<Vec<(SymbolId, ComptimeValue)>>,
    pub fuel: u64,
    pub fuel_exhausted: bool,
}

/// `program` is one `comp` binding of an integer literal that fits its
/// type, under a name that nothing visible from `module`'s scope binds yet.
pub open spec fn single_literal_declaration(e: Elaborator, module: ModuleId, program: Program) -> bool {
    &&& program.items@.len() == 1
    &&& e.symbols.symbols@.len() + 1 < u32::MAX
    &&& literal_binding(program.items@[0].data->Binding_0, e.sources, e.target)
    &&& match e.spec_module_scope(module) {
        Some(scope) => lookup_from_spec(e.environment@.scopes, scope,
            text_at(e.sources, program.items@[0].data->Binding_0.name)) is None,
        None => false,
    }
}

/// `name` is one of the names that the root scope binds: a built-in type
/// or a function of the runtime.
pub open spec fn builtin_name(name: Seq<char>) -> bool {
    ||| exists|k: int| 0 <= k < 10 && integer_type_name(#[trigger] builtin_integer(k)) == name
    ||| name == "type"@ || name == "str"@ || name == "unit"@ || name == "bool"@
    ||| name == "print_i64"@ || name == "print_bool"@ || name == "read_byte"@ || name == "print_ascii"@
}

/// Law: a name that no binding of a scope carries is not found there.
pub proof fn lemma_binding_lookup_absent(bindings: Seq<(Seq<char>, SymbolId)>, name: Seq<char>)
    requires
        forall|k: int| 0 <= k < bindings.len() ==> (#[trigger] bindings[k]).0 != name,
    ensures
        binding_lookup(bindings, name) is None,
    decreases bindings.len(),
{
    if bindings.len() > 0 {
        assert(bindings.last() == bindings[bindings.len() - 1]);
        lemma_binding_lookup_absent(bindings.drop_last(), name);
    }
}

/// Law: from the entry module's scope of a fresh elaborator, a name that is
/// not built in names nothing.
pub proof fn lemma_fresh_lookup_absent(e: Elaborator, name: Seq<char>)
    requires
        e.environment@.scopes.len() == 2,
        builtin_symbols(e.symbols.symbols@),
        binds_in_order(e.environment@.scopes[0].bindings, e.symbols.symbols@),
        e.environment@.scopes[1].parent == Some(ScopeId(0)),
        e.environment@.scopes[1].bindings.len() == 0,
        !builtin_name(name),
    ensures
        lookup_from_spec(e.environment@.scopes, ScopeId(1), name) is None,
{
    let symbols = e.symbols.symbols@;
    let bindings = e.environment@.scopes[0].bindings;
    assert forall|k: int| 0 <= k < bindings.len() implies (#[trigger] bindings[k]).0 != name by {
        assert(bindings[k] == (symbols[k].name@, SymbolId(k as u32)));
        if k < 10 {
            assert(is_builtin_type(symbols[k], integer_type_name(builtin_integer(k)), Type::Integer(builtin_integer(k))));
        }
    }
    lemma_binding_lookup_absent(bindings, name);
    lemma_binding_lookup_absent(e.environment@.scopes[1].bindings, name);
    assert(lookup_from_spec(e.environment@.scopes, ScopeId(0), name) is None);
    assert(lookup_from_spec(e.environment@.scopes, ScopeId(1), name)
        == lookup_from_spec(e.environment@.scopes, ScopeId(0), name));
}

/// The built-in integer type that the root scope binds `k`-th.
pub open spec fn builtin_integer(k: int) -> IntegerType {
    if k == 0 {
        IntegerType::U8
    } else if k == 1 {
        IntegerType::I8
    } else if k == 2 {
        IntegerType::U16
    } else if k == 3 {
        IntegerType::I16
    } else if k == 4 {
        IntegerType::U32
    } else if k == 5 {
        IntegerType::I32
    } else if k == 6 {
        IntegerType::U64
    } else if k == 7 {
        IntegerType::I64
    } else if k == 8 {
        IntegerType::Usize
    } else {
        IntegerType::Isize
    }
}

/// `symbol` is the built-in type `type_`, named `name`.
pub open spec fn is_builtin_type(symbol: Symbol, name: Seq<char>, type_: Type) -> bool {
    &&& symbol.name@ == name
    &&& symbol.kind == SymbolKind::BuiltinType(type_)
    &&& symbol.type_ == Type::Type
    &&& symbol.declaration_span is None
}

/// `symbol` is the runtime's external function `name`, of the C calling
/// convention, linked as `link_name`.
pub open spec fn is_runtime_function(symbol: Symbol, name: Seq<char>, link_name: Seq<char>,
    parameters: Seq<Type>, return_type: Type) -> bool {
    &&& symbol.name@ == name
    &&& symbol.declaration_span is None
    &&& symbol.type_ matches Type::Function { parameters: ps, return_type: r } && ps@ == parameters && *r == return_type
    &&& match symbol.kind {
        SymbolKind::ExternFunction { abi, link_name: link } => abi == ExternAbi::C && link@ == link_name,
        _ => false,
    }
}

/// The symbols that elaboration starts from: the ten integer types, `type`,
/// `str`, `unit` and `bool`, then the runtime's functions `print_i64`,
/// `print_bool`, `read_byte` and `print_ascii`.
pub open spec fn builtin_symbols(symbols: Seq<Symbol>) -> bool {
    &&& symbols.len() == 18
    &&& forall|k: int| 0 <= k < 10 ==>
        is_builtin_type(#[trigger] symbols[k], integer_type_name(builtin_integer(k)), Type::Integer(builtin_integer(k)))
    &&& is_builtin_type(symbols[10], "type"@, Type::Type)
    &&& is_builtin_type(symbols[11], "str"@, Type::Str)
    &&& is_builtin_type(symbols[12], "unit"@, Type::Unit)
    &&& is_builtin_type(symbols[13], "bool"@, Type::Bool)
    &&& is_runtime_function(symbols[14], "print_i64"@, "flang_print_i64"@, seq![Type::Integer(IntegerType::I64)], Type::Unit)
    &&& is_runtime_function(symbols[15], "print_bool"@, "flang_print_bool"@, seq![Type::Bool], Type::Unit)
    &&& is_runtime_function(symbols[16], "read_byte"@, "flang_read_byte"@, seq![], Type::Integer(IntegerType::I64))
    &&& is_runtime_function(symbols[17], "print_ascii"@, "flang_print_ascii"@, seq![Type::Integer(IntegerType::I64)], Type::Unit)
}

/// The scope binds each symbol of the table under its name, in the order of the table.
pub open spec fn binds_in_order(bindings: Seq<(Seq<char>, SymbolId)>, symbols: Seq<Symbol>) -> bool {
    &&& bindings.len() == symbols.len()
    &&& forall|k: int| 0 <= k < bindings.len() ==> #[trigger] bindings[k] == (symbols[k].name@, SymbolId(k as u32))
}

/// A bound above every function template identity: identities have 32 bits.
pub open spec fn template_bound() -> nat {
    0x1_0000_0000
}

/// The elaborated program refers only to its own symbols and compile-time
/// functions: in its bindings and in the bodies of its functions.
pub open spec fn program_within(program: &ElaboratedProgram) -> bool {
    &&& forall|k: int| 0 <= k < program.hir.bindings@.len() ==> expression_refs_valid(
        (#[trigger] program.hir.bindings@[k]).expression,
        program.symbols.symbols@.len(),
        program.functions.view_functions().len(),
        template_bound(),
    )
    &&& forall|i: int| 0 <= i < program.functions.view_functions().len() ==> function_refs_valid(
        *(#[trigger] program.functions.view_functions()[i]).hir,
        program.symbols.symbols@.len(),
        program.functions.view_functions().len(),
        template_bound(),
    )
}

/// The text that `span` covers in its file; empty when the span does not
/// point into a file of `sources`.
pub open spec fn text_at(sources: &SourceFileManager, span: Span) -> Seq<char> {
    if span.source.0 < sources.view_files().len() && span_readable(sources.file_contents(span.source), span) {
        span_contents(sources.file_contents(span.source), span)
    } else {
        Seq::empty()
    }
}

impl<'src> Elaborator<'src> {
    /// What holds of an elaborator between any two of its steps: its scopes
    /// are well formed and every name they bind stands for a symbol of that
    /// name; symbol identities fit in 32 bits; the target's pointer width is
    /// supported; each elaborated binding is stored under its symbol; and
    /// what it stores (elaborated bindings, compile-time functions and
    /// specializations) refers only to symbols, functions and templates that
    /// exist.
    pub open spec fn inv(&self) -> bool {
        &&& environment_wf(self.environment@)
        &&& bindings_named(self.environment@, self.symbols.symbols@)
        &&& self.symbols.symbols@.len() <= u32::MAX
        &&& self.template_count() <= u32::MAX
        &&& supported_width(self.target)
        &&& forall|k: u32| #[trigger] self.elaborated_bindings@.contains_key(k) ==> self.elaborated_bindings@[k].symbol.0 == k
        &&& self.stored_within(self.symbols.symbols@.len(), self.function_count(), self.template_count())
        &&& forall|i: int| 0 <= i < self.specializations@.len() ==> (#[trigger] self.specializations@[i]).1.0 < self.function_count()
    }

    /// The elaborated bindings and the compile-time functions refer only to
    /// symbols, functions and templates whose identities are below the
    /// given counts.
    pub open spec fn stored_within(&self, symbols: nat, functions: nat, templates: nat) -> bool {
        &&& forall|k: u32| #[trigger] self.elaborated_bindings@.contains_key(k) ==>
            expression_refs_valid(self.elaborated_bindings@[k].expression, symbols, functions, templates)
        &&& forall|i: int| 0 <= i < self.functions.view_functions().len() ==>
            function_refs_valid(*(#[trigger] self.functions.view_functions()[i]).hir, symbols, functions, templates)
    }

    /// Law: an elaborated expression that refers only to existing symbols,
    /// functions and templates keeps doing so as elaboration goes on.
    pub proof fn lemma_within_persists(&self, later: Self, e: HirExpression)
        requires
            self.progresses(later),
            self.refers_within(e),
        ensures
            later.refers_within(e),
    {
        lemma_expression_refs_grow(e, self.symbols.symbols@.len(), self.function_count(), self.template_count(),
            later.symbols.symbols@.len(), later.function_count(), later.template_count());
    }

    /// An elaborated block keeps referring only to what exists.
    pub proof fn lemma_block_within_persists(&self, later: Self, b: HirBlock)
        requires
            self.progresses(later),
            self.block_within(b),
        ensures
            later.block_within(b),
    {
        lemma_block_refs_grow(b, self.symbols.symbols@.len(), self.function_count(), self.template_count(),
            later.symbols.symbols@.len(), later.function_count(), later.template_count());
    }

    /// An elaborated statement keeps referring only to what exists.
    pub proof fn lemma_statement_within_persists(&self, later: Self, st: HirStatement)
        requires
            self.progresses(later),
            self.statement_within(st),
        ensures
            later.statement_within(st),
    {
        lemma_statement_refs_grow(st, self.symbols.symbols@.len(), self.function_count(), self.template_count(),
            later.symbols.symbols@.len(), later.function_count(), later.template_count());
    }

    /// An elaborated assignment target keeps referring only to what exists.
    pub proof fn lemma_place_within_persists(&self, later: Self, p: HirPlace)
        requires
            self.progresses(later),
            self.place_within(p),
        ensures
            later.place_within(p),
    {
        lemma_place_refs_grow(p, self.symbols.symbols@.len(), self.function_count(), self.template_count(),
            later.symbols.symbols@.len(), later.function_count(), later.template_count());
    }

    /// What the elaborator stores keeps referring only to what exists as
    /// the tables grow.
    pub proof fn lemma_stored_within_grows(&self, s: nat, f: nat, t: nat, s2: nat, f2: nat, t2: nat)
        requires
            self.stored_within(s, f, t),
            s <= s2,
            f <= f2,
            t <= t2,
        ensures
            self.stored_within(s2, f2, t2),
    {
        assert forall|k: u32| #[trigger] self.elaborated_bindings@.contains_key(k) implies
            expression_refs_valid(self.elaborated_bindings@[k].expression, s2, f2, t2) by {
            lemma_expression_refs_grow(self.elaborated_bindings@[k].expression, s, f, t, s2, f2, t2);
        }
        assert forall|i: int| 0 <= i < self.functions.view_functions().len() implies
            function_refs_valid(*(#[trigger] self.functions.view_functions()[i]).hir, s2, f2, t2) by {
            lemma_function_refs_grow(*self.functions.view_functions()[i].hir, s, f, t, s2, f2, t2);
        }
    }

    /// How an elaborator may change in one step: it stays well formed, uses
    /// up fuel, never takes back a diagnostic, leaves the current scope as
    /// it found it, keeps the nesting of existing scopes, and only adds
    /// symbols, never renaming one.
    pub open spec fn progresses(&self, later: Self) -> bool {
        &&& later.inv()
        &&& later.fuel <= self.fuel
        &&& later.target == self.target
        &&& later.sources == self.sources
        &&& self.diagnostics@.len() <= later.diagnostics@.len()
        &&& later.environment@.current == self.environment@.current
        &&& self.environment@.scopes.len() <= later.environment@.scopes.len()
        &&& forall|i: int| 0 <= i < self.environment@.scopes.len() ==>
            #[trigger] later.environment@.scopes[i].parent == self.environment@.scopes[i].parent
        &&& self.symbols.symbols@.len() <= later.symbols.symbols@.len()
        &&& forall|k: int| 0 <= k < self.symbols.symbols@.len() ==>
            #[trigger] later.symbols.symbols@[k].name == self.symbols.symbols@[k].name
        &&& self.function_count() <= later.function_count()
        &&& self.template_count() <= later.template_count()
    }

    /// How many compile-time functions there are.
    pub open spec fn function_count(&self) -> nat {
        self.functions.view_functions().len()
    }

    /// How many function templates there are.
    pub open spec fn template_count(&self) -> nat {
        self.function_templates.view_templates().len()
    }

    /// The elaborated expression refers only to symbols, compile-time
    /// functions and templates that exist.
    pub open spec fn refers_within(&self, e: HirExpression) -> bool {
        expression_refs_valid(e, self.symbols.symbols@.len(), self.function_count(), self.template_count())
    }

    /// The elaborated function refers only to what exists.
    pub open spec fn function_within(&self, f: HirFunctionExpression) -> bool {
        function_refs_valid(f, self.symbols.symbols@.len(), self.function_count(), self.template_count())
    }

    /// The elaborated block refers only to what exists.
    pub open spec fn block_within(&self, b: HirBlock) -> bool {
        block_refs_valid(b, self.symbols.symbols@.len(), self.function_count(), self.template_count())
    }

    /// The elaborated statement refers only to what exists.
    pub open spec fn statement_within(&self, st: HirStatement) -> bool {
        statement_refs_valid(st, self.symbols.symbols@.len(), self.function_count(), self.template_count())
    }

    /// The elaborated assignment target refers only to what exists.
    pub open spec fn place_within(&self, p: HirPlace) -> bool {
        place_refs_valid(p, self.symbols.symbols@.len(), self.function_count(), self.template_count())
    }

    /// A step that also leaves the compile-time call frames as it found them:
    /// every step but running the statements of a compile-time call.
    pub open spec fn evolves(&self, later: Self) -> bool {
        &&& self.progresses(later)
        &&& later.frames@ == self.frames@
    }

    /// A step that runs statements of a compile-time call: it changes no call
    /// frame but the innermost one.
    pub open spec fn runs_statements(&self, later: Self) -> bool {
        &&& self.progresses(later)
        &&& later.frames@.len() == self.frames@.len()
        &&& forall|i: int| 0 <= i < self.frames@.len() - 1 ==> #[trigger] later.frames@[i] == self.frames@[i]
    }

    /// The name that `span` covers stands, from the current scope, for
    /// `symbol`, a symbol of the table with that name.
    pub open spec fn resolves_to(&self, span: Span, symbol: SymbolId) -> bool {
        &&& lookup_from_spec(self.environment@.scopes, self.environment@.current, text_at(self.sources, span)) == Some(symbol)
        &&& symbol.0 < self.symbols.symbols@.len()
        &&& self.symbols.symbols@[symbol.0 as int].name@ == text_at(self.sources, span)
    }

    /// The diagnostics reported so far.
    pub open spec fn spec_diagnostics(&self) -> Seq<Diagnostic> {
        self.diagnostics@
    }

    /// Starts elaborating the file `entry` of `sources` for `target`: the
    /// built-in types and external functions are bound in a root scope, and
    /// the entry module gets a scope of its own nested in it.
    pub fn new(sources: &'src SourceFileManager, entry: SourceId, target: TargetInfo) -> (elaborator: Elaborator<'src>)
        requires
            supported_width(target),
        ensures
            elaborator.inv(),
            elaborator.spec_diagnostics().len() == 0,
            elaborator.environment@.scopes.len() == 2,
            elaborator.environment@.current == ScopeId(1),
            elaborator.spec_module_scope(elaborator.entry_module) == Some(ScopeId(1)),
            elaborator.binding_order@.len() == 0,
            builtin_symbols(elaborator.symbols.symbols@),
            binds_in_order(elaborator.environment@.scopes[0].bindings, elaborator.symbols.symbols@),
            elaborator.environment@.scopes[1].parent == Some(ScopeId(0)),
            elaborator.environment@.scopes[1].bindings.len() == 0,
            elaborator.fuel == ELABORATION_FUEL,
            elaborator.sources == sources,
            elaborator.target == target,
    {
        let mut symbols = SymbolTable::new();
        let mut environment = Environment::new();
        let integer_types: [IntegerType; 10] = [
            IntegerType::U8,
            IntegerType::I8,
            IntegerType::U16,
            IntegerType::I16,
            IntegerType::U32,
            IntegerType::I32,
            IntegerType::U64,
            IntegerType::I64,
            IntegerType::Usize,
            IntegerType::Isize,
        ];
        assert(forall|k: int| 0 <= k < 10 ==> integer_types@[k] == builtin_integer(k));
        let mut i: usize = 0;
        while i < 10
            invariant
                i <= 10,
                symbols.symbols@.len() == i,
                environment_wf(environment@),
                bindings_named(environment@, symbols.symbols@),
                environment@.scopes.len() == 1,
                environment@.current == ScopeId(0),
                environment@.scopes[0].parent is None,
                forall|k: int| 0 <= k < 10 ==> integer_types@[k] == builtin_integer(k),
                forall|k: int| 0 <= k < i ==>
                    is_builtin_type(#[trigger] symbols.symbols@[k], integer_type_name(builtin_integer(k)), Type::Integer(builtin_integer(k))),
                binds_in_order(environment@.scopes[0].bindings, symbols.symbols@),
            decreases 10 - i,
        {
            let integer_type = integer_types[i];
            let name = integer_type.name();
            let ghost before = symbols.symbols@;
            let symbol_id = symbols.insert(Symbol {
                name: String::from_str(name),
                kind: SymbolKind::BuiltinType(Type::Integer(integer_type)),
                declaration_span: None,
                type_: Type::Type,
            });
            proof {
                lemma_growth_keeps_bindings_named(environment@, before, symbols.symbols@);
                lemma_define_keeps_bindings_named(environment@, symbols.symbols@, name@, symbol_id);
            }
            environment.define(String::from_str(name), symbol_id);
            i += 1;
        }
        let ghost before = symbols.symbols@;
        Self::register_builtin_type(&mut symbols, &mut environment, "type", Type::Type);
        assert(forall|k: int| 0 <= k < before.len() ==> #[trigger] symbols.symbols@[k] == before[k]) by {
            assert(symbols.symbols@.drop_last() == before);
        }
        let ghost before = symbols.symbols@;
        Self::register_builtin_type(&mut symbols, &mut environment, "str", Type::Str);
        assert(forall|k: int| 0 <= k < before.len() ==> #[trigger] symbols.symbols@[k] == before[k]) by {
            assert(symbols.symbols@.drop_last() == before);
        }
        let ghost before = symbols.symbols@;
        Self::register_builtin_type(&mut symbols, &mut environment, "unit", Type::Unit);
        assert(forall|k: int| 0 <= k < before.len() ==> #[trigger] symbols.symbols@[k] == before[k]) by {
            assert(symbols.symbols@.drop_last() == before);
        }
        let ghost before = symbols.symbols@;
        Self::register_builtin_type(&mut symbols, &mut environment, "bool", Type::Bool);
        assert(forall|k: int| 0 <= k < before.len() ==> #[trigger] symbols.symbols@[k] == before[k]) by {
            assert(symbols.symbols@.drop_last() == before);
        }
        let ghost before = symbols.symbols@;
        let mut print_i64_parameters: Vec<Type> = Vec::new();
        print_i64_parameters.push(Type::Integer(IntegerType::I64));
        Self::register_external_function(
            &mut symbols,
            &mut environment,
            String::from_str("print_i64"),
            String::from_str("flang_print_i64"),
            print_i64_parameters,
            Type::Unit,
        );
        assert(forall|k: int| 0 <= k < before.len() ==> #[trigger] symbols.symbols@[k] == before[k]) by {
            assert(symbols.symbols@.drop_last() == before);
        }
        let ghost before = symbols.symbols@;
        let mut print_bool_parameters: Vec<Type> = Vec::new();
        print_bool_parameters.push(Type::Bool);
        Self::register_external_function(
            &mut symbols,
            &mut environment,
            String::from_str("print_bool"),
            String::from_str("flang_print_bool"),
            print_bool_parameters,
            Type::Unit,
        );
        assert(forall|k: int| 0 <= k < before.len() ==> #[trigger] symbols.symbols@[k] == before[k]) by {
            assert(symbols.symbols@.drop_last() == before);
        }
        let ghost before = symbols.symbols@;
        Self::register_external_function(
            &mut symbols,
            &mut environment,
            String::from_str("read_byte"),
            String::from_str("flang_read_byte"),
            Vec::new(),
            Type::Integer(IntegerType::I64),
        );
        assert(forall|k: int| 0 <= k < before.len() ==> #[trigger] symbols.symbols@[k] == before[k]) by {
            assert(symbols.symbols@.drop_last() == before);
        }
        let ghost before = symbols.symbols@;
        let mut print_ascii_parameters: Vec<Type> = Vec::new();
        print_ascii_parameters.push(Type::Integer(IntegerType::I64));
        Self::register_external_function(
            &mut symbols,
            &mut environment,
            String::from_str("print_ascii"),
            String::from_str("flang_print_ascii"),
            print_ascii_parameters,
            Type::Unit,
        );
        assert(forall|k: int| 0 <= k < before.len() ==> #[trigger] symbols.symbols@[k] == before[k]) by {
            assert(symbols.symbols@.drop_last() == before);
        }
        environment.push_scope();
        let module_scope = environment.current_scope();
        let mut modules = ModuleStore::new();
        proof {
            lemma_module_ids_convert();
        }
        let entry_module = modules.insert(Module { source: entry, scope: module_scope });
        Elaborator {
            target,
            sources,
            symbols,
            environment,
            diagnostics: Vec::new(),
            pending_bindings: HashMap::new(),
            binding_order: Vec::new(),
            elaboration_status: HashMap::new(),
            elaborated_bindings: HashMap::new(),
            elaboration_stack: Vec::new(),
            evaluation_status: HashMap::new(),
            evaluation_stack: Vec::new(),
            entry_module,
            modules,
            values: ValueStore::new(),
            functions: FunctionStore::new(),
            function_templates: FunctionTemplateStore::new(),
            specializations: Vec::new(),
            active_specializations: Vec::new(),
            frames: Vec::new(),
            fuel: ELABORATION_FUEL,
            fuel_exhausted: false,
        }
    }

    /// Binds a built-in type under its name in the current scope.
    fn register_builtin_type(symbols: &mut SymbolTable, environment: &mut Environment, name: &str, type_: Type)
        requires
            old(symbols).symbols@.len() < 100,
            environment_wf(old(environment)@),
            bindings_named(old(environment)@, old(symbols).symbols@),
        ensures
            bindings_named(final(environment)@, final(symbols).symbols@),
            final(symbols).symbols@.drop_last() == old(symbols).symbols@,
            is_builtin_type(final(symbols).symbols@.last(), name@, type_),
            final(environment)@ == define_spec(old(environment)@, name@, SymbolId(old(symbols).symbols@.len() as u32)),
            final(symbols).symbols@.len() == old(symbols).symbols@.len() + 1,
            environment_wf(final(environment)@),
            final(environment)@.scopes.len() == old(environment)@.scopes.len(),
            final(environment)@.current == old(environment)@.current,
    {
        let ghost before = symbols.symbols@;
        let symbol_id = symbols.insert(Symbol {
            name: String::from_str(name),
            kind: SymbolKind::BuiltinType(type_),
            declaration_span: None,
            type_: Type::Type,
        });
        proof {
            lemma_growth_keeps_bindings_named(environment@, before, symbols.symbols@);
            lemma_define_keeps_bindings_named(environment@, symbols.symbols@, name@, symbol_id);
        }
        environment.define(String::from_str(name), symbol_id);
    }

    /// Binds an external function of the C ABI under `name` in the current
    /// scope, linked as `link_name`.
    fn register_external_function(
        symbols: &mut SymbolTable,
        environment: &mut Environment,
        name: String,
        link_name: String,
        parameters: Vec<Type>,
        return_type: Type,
    )
        requires
            old(symbols).symbols@.len() < 100,
            environment_wf(old(environment)@),
            bindings_named(old(environment)@, old(symbols).symbols@),
        ensures
            final(symbols).symbols@.len() == old(symbols).symbols@.len() + 1,
            environment_wf(final(environment)@),
            bindings_named(final(environment)@, final(symbols).symbols@),
            final(symbols).symbols@.drop_last() == old(symbols).symbols@,
            is_runtime_function(final(symbols).symbols@.last(), name@, link_name@, parameters@, return_type),
            final(environment)@ == define_spec(old(environment)@, name@, SymbolId(old(symbols).symbols@.len() as u32)),
            final(environment)@.scopes.len() == old(environment)@.scopes.len(),
            final(environment)@.current == old(environment)@.current,
    {
        let symbol = Symbol {
            name: name.clone(),
            kind: SymbolKind::ExternFunction { link_name, abi: ExternAbi::C },
            declaration_span: None,
            type_: Type::Function { parameters, return_type: Box::new(return_type) },
        };
        let ghost before = symbols.symbols@;
        let symbol_id = symbols.insert(symbol);
        proof {
            lemma_growth_keeps_bindings_named(environment@, before, symbols.symbols@);
            lemma_define_keeps_bindings_named(environment@, symbols.symbols@, name@, symbol_id);
        }
        environment.define(name, symbol_id);
    }

    /// Uses up one step of fuel; reports once, at `span`, when none is left.
    pub(crate) fn tick(&mut self, span: Span) -> (ok: bool)
        requires
            old(self).inv(),
        ensures
            old(self).evolves(*final(self)),
            ok ==> final(self).fuel < old(self).fuel,
            old(self).fuel > 0 ==> ok && final(self).fuel == old(self).fuel - 1
                && final(self).diagnostics == old(self).diagnostics
                && final(self).functions == old(self).functions,
            final(self).environment == old(self).environment,
            final(self).symbols == old(self).symbols,
            final(self).values == old(self).values,
            final(self).function_templates == old(self).function_templates,
            final(self).active_specializations == old(self).active_specializations,
            final(self).elaboration_status == old(self).elaboration_status,
            final(self).elaborated_bindings == old(self).elaborated_bindings,
            final(self).evaluation_status == old(self).evaluation_status,
            final(self).specializations == old(self).specializations,
            final(self).pending_bindings == old(self).pending_bindings,
            final(self).binding_order == old(self).binding_order,
    {
        if self.fuel == 0 {
            if !self.fuel_exhausted {
                self.fuel_exhausted = true;
                self.diagnostics.push(error_str(
                    "Compile-time evaluation limit reached",
                    span,
                    "elaborating this takes more steps than the compiler allows",
                ));
            }
            false
        } else {
            self.fuel = self.fuel - 1;
            true
        }
    }

    /// Reports an error diagnostic.
    pub(crate) fn report(&mut self, diagnostic: Diagnostic)
        requires
            old(self).inv(),
        ensures
            old(self).evolves(*final(self)),
            final(self).fuel == old(self).fuel,
            final(self).diagnostics@ == old(self).diagnostics@.push(diagnostic),
            final(self).environment == old(self).environment,
            final(self).symbols == old(self).symbols,
            final(self).frames == old(self).frames,
            final(self).values == old(self).values,
            final(self).functions == old(self).functions,
            final(self).binding_order == old(self).binding_order,
    {
        self.diagnostics.push(diagnostic);
    }

    /// The text that `span` covers in its file.
    pub(crate) fn span_text(&self, span: Span) -> (text: String)
        ensures
            text@ == text_at(self.sources, span),
    {
        let files = self.sources.files();
        if span.source.0 >= files.len() {
            return String::new();
        }
        let len = self.sources.get_file(span.source).len();
        let start = if span.start <= len { span.start } else { len };
        let end = if span.end <= len { span.end } else { len };
        if start > end {
            return String::new();
        }
        self.sources.span_text(span)
    }

    /// Adds a symbol to the table; reports and gives `None` when the table
    /// has no identity left to give.
    pub(crate) fn add_symbol(&mut self, symbol: Symbol, span: Span) -> (id: Option<SymbolId>)
        requires
            old(self).inv(),
        ensures
            old(self).evolves(*final(self)),
            final(self).fuel == old(self).fuel,
            final(self).environment == old(self).environment,
            final(self).binding_order == old(self).binding_order,
            match id {
                Some(id) => id.0 == old(self).symbols.symbols@.len()
                    && final(self).symbols.symbols@ == old(self).symbols.symbols@.push(symbol)
                    && final(self).diagnostics == old(self).diagnostics,
                None => final(self).symbols == old(self).symbols
                    && final(self).diagnostics@.len() == old(self).diagnostics@.len() + 1,
            },
            old(self).symbols.symbols@.len() < u32::MAX ==> id is Some,
    {
        if self.symbols.symbols.len() >= 0xffff_ffff {
            self.report(error_str("Too many symbols", span, "the compiler cannot name more symbols"));
            None
        } else {
            proof {
                let count = self.symbols.symbols@.len();
                self.lemma_stored_within_grows(count, self.function_count(), self.template_count(), count + 1, self.function_count(), self.template_count());
            }
            Some(self.symbols.insert(symbol))
        }
    }

    /// Whether `scope` is a scope of the environment.
    pub(crate) fn scope_exists(&self, scope: ScopeId) -> (exists: bool)
        requires
            self.inv(),
        ensures
            exists == (scope.0 < self.environment@.scopes.len()),
    {
        self.environment.scope_count() > scope.0
    }

    /// Elaborates `program` as the entry module: declares its bindings,
    /// evaluates them in declaration order, and gives the elaborated program,
    /// or every diagnostic when any was reported.
    pub fn elaborate(self, program: Program) -> (result: Result<ElaboratedProgram, Vec<Diagnostic>>)
        requires
            self.inv(),
        ensures
            match result {
                Ok(elaborated) => {
                    &&& program_within(&elaborated)
                    &&& self.symbols.symbols@.len() <= elaborated.symbols.symbols@.len()
                    &&& forall|k: int| 0 <= k < self.symbols.symbols@.len() ==>
                        #[trigger] elaborated.symbols.symbols@[k].name == self.symbols.symbols@[k].name
                    &&& self.function_count() <= elaborated.functions.view_functions().len()
                    &&& elaborated.entry_symbol matches Some(main) ==> {
                        &&& main.0 < elaborated.symbols.symbols@.len()
                        &&& elaborated.symbols.symbols@[main.0 as int].name@ == seq!['m', 'a', 'i', 'n']
                    }
                },
                Err(diagnostics) => diagnostics@.len() >= self.spec_diagnostics().len() && diagnostics@.len() > 0,
            },
            self.spec_diagnostics().len() > 0 ==> result is Err,
            program.items@.len() == 0 && self.binding_order@.len() == 0 && self.spec_diagnostics().len() == 0 ==> result is Ok,
            single_literal_declaration(self, self.entry_module, program) && self.binding_order@.len() == 0
                && self.spec_diagnostics().len() == 0 && self.fuel > 4 ==> result is Ok,
    {
        let mut this = self;
        this.evaluate_program(program);
        this.finish()
    }

    /// Declares the bindings of `program` in the entry module and evaluates
    /// them in declaration order; what goes wrong is reported.
    pub fn evaluate_program(&mut self, program: Program)
        requires
            old(self).inv(),
        ensures
            old(self).progresses(*final(self)),
            program.items@.len() == 0 && old(self).binding_order@.len() == 0 ==> final(self).diagnostics == old(self).diagnostics,
            single_literal_declaration(*old(self), old(self).entry_module, program) && old(self).binding_order@.len() == 0
                && old(self).fuel > 4 ==> final(self).diagnostics@.len() == old(self).diagnostics@.len(),
    {
        let ghost start = *self;
        let ghost literal = single_literal_declaration(*old(self), old(self).entry_module, program)
            && old(self).binding_order@.len() == 0 && old(self).fuel > 4;
        let entry = self.entry_module;
        self.collect_declarations(entry, program);
        let order = self.binding_order.clone();
        let ghost collected = *self;
        let ghost s = SymbolId(old(self).symbols.symbols@.len() as u32);
        assert(order@.len() == self.binding_order@.len());
        proof {
            if literal {
                assert(order@ =~= seq![s]);
            }
        }
        let mut i: usize = 0;
        while i < order.len()
            invariant
                self.inv(),
                start.progresses(*self),
                i <= order@.len(),
                i == 0 ==> self.diagnostics == collected.diagnostics,
                i == 0 ==> *self == collected,
                literal ==> order@ == seq![s] && collected.diagnostics == old(self).diagnostics
                    && collected.evaluation_status@.get(s.0) == Some(WorkStatus::Pending)
                    && pending_literal(collected, s) && is_comptime_binding(collected.symbols.symbols@, s)
                    && collected.fuel == old(self).fuel && old(self).fuel > 4,
                literal && i == 1 ==> self.diagnostics@.len() == old(self).diagnostics@.len(),
            decreases order@.len() - i,
        {
            let symbol = order[i];
            proof {
                if literal {
                    assert(i == 0);
                    assert(symbol == s);
                    assert(self.evaluation_status@.get(symbol.0) == Some(WorkStatus::Pending));
                    assert(pending_literal(*self, symbol));
                    assert(self.fuel > 4);
                }
            }
            let _ = self.ensure_binding_evaluated(symbol);
            i += 1;
        }
    }

    /// The elaborated program once the bindings are evaluated: the
    /// diagnostics exactly when any was reported, else the program with the
    /// elaborated bindings in declaration order and the entry module's `main`.
    pub fn finish(self) -> (result: Result<ElaboratedProgram, Vec<Diagnostic>>)
        requires
            self.inv(),
        ensures
            result is Ok <==> self.spec_diagnostics().len() == 0,
            result matches Err(diagnostics) ==> diagnostics@ == self.spec_diagnostics(),
            result matches Ok(elaborated) ==> {
                &&& program_within(&elaborated)
                &&& elaborated.symbols == self.symbols
                &&& elaborated.functions == self.functions
                &&& elaborated.entry_symbol matches Some(main) ==> {
                    &&& main.0 < elaborated.symbols.symbols@.len()
                    &&& elaborated.symbols.symbols@[main.0 as int].name@ == seq!['m', 'a', 'i', 'n']
                }
            },
    {
        let mut this = self;
        let ghost start = this;
        let entry = this.entry_module;
        if this.diagnostics.len() > 0 {
            return Err(this.diagnostics);
        }
        let mut bindings: Vec<Rc<HirBinding>> = Vec::new();
        let mut k: usize = 0;
        while k < this.binding_order.len()
            invariant
                this.inv(),
                start.progresses(this),
                forall|j: int| 0 <= j < bindings@.len() ==> this.refers_within((#[trigger] bindings@[j]).expression),
            decreases this.binding_order@.len() - k,
        {
            let symbol = this.binding_order[k];
            match this.elaborated_bindings.get(&symbol.0) {
                Some(binding) => {
                    bindings.push(crate::util::share(binding));
                },
                None => {},
            }
            k += 1;
        }
        proof {
            let (s, f, t) = (this.symbols.symbols@.len(), this.function_count(), this.template_count());
            this.lemma_stored_within_grows(s, f, t, s, f, template_bound());
            assert forall|j: int| 0 <= j < bindings@.len() implies
                expression_refs_valid((#[trigger] bindings@[j]).expression, s, f, template_bound()) by {
                lemma_expression_refs_grow(bindings@[j].expression, s, f, t, s, f, template_bound());
            }
        }
        let entry_symbol = match this.module_scope(entry) {
            Some(scope) => {
                proof {
                    reveal_strlit("main");
                    lemma_lookup_gives_named_symbol(this.environment@, this.symbols.symbols@, scope, "main"@);
                }
                this.environment.lookup_in(scope, "main")
            },
            None => None,
        };
        Ok(ElaboratedProgram {
            hir: HirProgram { bindings },
            symbols: this.symbols,
            values: this.values,
            functions: this.functions,
            entry_symbol,
        })
    }

    /// The scope of the top-level names of `module`, when the module and
    /// its scope exist.
    pub open spec fn spec_module_scope(&self, module: ModuleId) -> Option<ScopeId> {
        if module.0 < self.modules.view_entries().len()
            && self.modules.view_entries()[module.0 as int].scope.0 < self.environment@.scopes.len() {
            Some(self.modules.view_entries()[module.0 as int].scope)
        } else {
            None
        }
    }

    /// The scope of the top-level names of `module`.
    pub fn module_scope(&self, module: ModuleId) -> (scope: Option<ScopeId>)
        requires
            self.inv(),
        ensures
            scope == self.spec_module_scope(module),
            scope matches Some(s) ==> s.0 < self.environment@.scopes.len(),
    {
        proof {
            lemma_module_ids_convert();
        }
        if module.0 < self.modules.len() {
            let scope = self.modules.get(module).scope;
            if self.scope_exists(scope) {
                Some(scope)
            } else {
                None
            }
        } else {
            None
        }
    }

    /// The module that elaboration started from.
    pub fn entry_module(&self) -> (module: ModuleId)
        ensures
            module == self.entry_module,
    {
        self.entry_module
    }

    /// Declares the top-level bindings of `program` in the scope of `module`,
    /// in order; a name that is already bound there, or in a scope around it,
    /// is reported as a duplicate and skipped. The current scope is left as it
    /// was. Afterwards every name that the program declares is bound, seen
    /// from the module's scope, as long as the symbol table has room for all.
    #[verifier::rlimit(80)]
    #[verifier::spinoff_prover]
    pub fn collect_declarations(&mut self, module: ModuleId, program: Program)
        requires
            old(self).inv(),
        ensures
            old(self).evolves(*final(self)),
            match old(self).spec_module_scope(module) {
                Some(scope) => old(self).symbols.symbols@.len() + program.items@.len() < u32::MAX ==>
                    forall|k: int| 0 <= k < program.items@.len() ==> lookup_from_spec(
                        final(self).environment@.scopes,
                        scope,
                        text_at(old(self).sources, (#[trigger] program.items@[k]).data->Binding_0.name),
                    ) is Some,
                None => true,
            },
            old(self).spec_module_scope(module) is Some
                && old(self).symbols.symbols@.len() + program.items@.len() < u32::MAX ==>
                forall|k: int, l: int| 0 <= k < l < program.items@.len()
                    && text_at(old(self).sources, (#[trigger] program.items@[k]).data->Binding_0.name)
                        == text_at(old(self).sources, (#[trigger] program.items@[l]).data->Binding_0.name)
                    ==> final(self).diagnostics@.len() > old(self).diagnostics@.len(),
            program.items@.len() == 0 ==> final(self).diagnostics == old(self).diagnostics
                && final(self).binding_order == old(self).binding_order,
            single_literal_declaration(*old(self), module, program) ==> {
                let s = SymbolId(old(self).symbols.symbols@.len() as u32);
                &&& final(self).diagnostics == old(self).diagnostics
                &&& final(self).fuel == old(self).fuel
                &&& final(self).binding_order@ == old(self).binding_order@.push(s)
                &&& final(self).evaluation_status@.get(s.0) == Some(WorkStatus::Pending)
                &&& pending_literal(*final(self), s)
                &&& is_comptime_binding(final(self).symbols.symbols@, s)
            },
    {
        let ghost single = single_literal_declaration(*old(self), module, program);
        let scope = match self.module_scope(module) {
            Some(scope) => scope,
            None => {
                return;
            },
        };
        let previous_scope = self.environment.switch_scope(scope);
        let ghost all = program.items@;
        proof {
            if single {
                assert(old(self).spec_module_scope(module) == Some(scope));
            }
        }
        let mut items = program.items;
        while items.len() > 0
            invariant
                items@.len() <= all.len(),
                items@ == all.subrange(all.len() - items@.len(), all.len() as int),
                self.symbols.symbols@.len() <= old(self).symbols.symbols@.len() + (all.len() - items@.len()),
                old(self).symbols.symbols@.len() + all.len() < u32::MAX ==>
                    forall|k: int| 0 <= k < all.len() - items@.len() ==> lookup_from_spec(
                        self.environment@.scopes,
                        scope,
                        text_at(self.sources, (#[trigger] all[k]).data->Binding_0.name),
                    ) is Some,
                old(self).symbols.symbols@.len() + all.len() < u32::MAX ==>
                    forall|k: int, l: int| 0 <= k < l < all.len() - items@.len()
                        && text_at(self.sources, (#[trigger] all[k]).data->Binding_0.name)
                            == text_at(self.sources, (#[trigger] all[l]).data->Binding_0.name)
                        ==> self.diagnostics@.len() > old(self).diagnostics@.len(),
                old(self).inv(),
                self.inv(),
                all.len() == 0 ==> self.diagnostics == old(self).diagnostics && self.binding_order == old(self).binding_order,
                self.fuel <= old(self).fuel,
                self.target == old(self).target,
                self.sources == old(self).sources,
                old(self).diagnostics@.len() <= self.diagnostics@.len(),
                self.frames@ == old(self).frames@,
                old(self).symbols.symbols@.len() <= self.symbols.symbols@.len(),
                forall|k: int| 0 <= k < old(self).symbols.symbols@.len() ==>
                    #[trigger] self.symbols.symbols@[k].name == old(self).symbols.symbols@[k].name,
                old(self).function_count() <= self.function_count(),
                old(self).template_count() <= self.template_count(),
                old(self).environment@.scopes.len() <= self.environment@.scopes.len(),
                forall|i: int| 0 <= i < old(self).environment@.scopes.len() ==>
                    #[trigger] self.environment@.scopes[i].parent == old(self).environment@.scopes[i].parent,
                self.environment@.current == scope,
                scope.0 < self.environment@.scopes.len(),
                previous_scope == old(self).environment@.current,
                previous_scope.0 < self.environment@.scopes.len(),
                single ==> old(self).spec_module_scope(module) == Some(scope),
                single ==> all.len() == 1 && literal_binding(all[0].data->Binding_0, old(self).sources, old(self).target)
                    && lookup_from_spec(old(self).environment@.scopes, scope, text_at(old(self).sources, all[0].data->Binding_0.name)) is None
                    && old(self).symbols.symbols@.len() + 1 < u32::MAX,
                single && items@.len() == 1 ==> {
                    &&& self.diagnostics == old(self).diagnostics
                    &&& self.fuel == old(self).fuel
                    &&& self.binding_order == old(self).binding_order
                    &&& self.symbols == old(self).symbols
                    &&& self.environment@.scopes == old(self).environment@.scopes
                },
                single && items@.len() == 0 ==> {
                    let s = SymbolId(old(self).symbols.symbols@.len() as u32);
                    &&& self.diagnostics == old(self).diagnostics
                    &&& self.fuel == old(self).fuel
                    &&& self.binding_order@ == old(self).binding_order@.push(s)
                    &&& self.evaluation_status@.get(s.0) == Some(WorkStatus::Pending)
                    &&& pending_literal(*self, s)
                    &&& is_comptime_binding(self.symbols.symbols@, s)
                },
            decreases items@.len(),
        {
            let ghost done = (all.len() - items@.len()) as int;
            let item = items.remove(0);
            proof {
                assert(item == all[done]);
                assert(items@ == all.subrange(all.len() - items@.len(), all.len() as int));
            }
            let ItemData::Binding(binding) = item.data;
            let name = self.span_text(binding.name);
            proof {
                if single {
                    assert(done == 0);
                    assert(binding == all[0].data->Binding_0);
                    assert(lookup_from_spec(self.environment@.scopes, self.environment@.current, name@) is None);
                }
            }
            let ghost entry_state = *self;
            if self.environment.lookup(name.as_str()).is_some() {
                self.report(error_str("Duplicate binding found", item.span, "Evil :("));
                continue;
            }
            let symbol = Symbol {
                name: name.clone(),
                declaration_span: Some(binding.name),
                kind: SymbolKind::Binding { phase: binding.phase, mutable: binding.mutable },
                type_: Type::Unknown,
            };
            let symbol_id = match self.add_symbol(symbol, item.span) {
                Some(id) => id,
                None => {
                    continue;
                },
            };
            proof {
                let env = self.environment@;
                lemma_lookup_after_define(env, name@, symbol_id);
                assert forall|k: int| 0 <= k < done && old(self).symbols.symbols@.len() + all.len() < u32::MAX implies lookup_from_spec(
                    define_spec(env, name@, symbol_id).scopes,
                    scope,
                    text_at(self.sources, (#[trigger] all[k]).data->Binding_0.name),
                ) is Some by {
                    let other = text_at(self.sources, all[k].data->Binding_0.name);
                    if other != name@ {
                        lemma_define_keeps_other_names(env, name@, symbol_id, other, scope);
                    }
                }
            }
            self.environment.define(name, symbol_id);
            let pending = PendingBinding {
                binding: Rc::new(binding),
                span: item.span,
                defining_scope: self.environment.current_scope(),
            };
            self.pending_bindings.insert(symbol_id.0, pending);
            self.binding_order.push(symbol_id);
            self.elaboration_status.insert(symbol_id.0, WorkStatus::Pending);
            self.evaluation_status.insert(symbol_id.0, WorkStatus::Pending);
            proof {
                if single {
                    assert(symbol_id == SymbolId(old(self).symbols.symbols@.len() as u32));
                    assert(*self.pending_bindings@[symbol_id.0].binding == binding);
                    assert(literal_binding(binding, self.sources, self.target));
                    assert(pending_literal(*self, symbol_id));
                    assert(self.symbols.symbols@[symbol_id.0 as int].kind == (SymbolKind::Binding { phase: binding.phase, mutable: binding.mutable }));
                    assert(is_comptime_binding(self.symbols.symbols@, symbol_id));
                    assert(self.diagnostics == old(self).diagnostics);
                    assert(self.fuel == old(self).fuel);
                    assert(self.binding_order@ == old(self).binding_order@.push(symbol_id));
                    assert(self.evaluation_status@.get(symbol_id.0) == Some(WorkStatus::Pending));
                    assert(items@.len() == 0);
                }
            }
        }
        self.environment.switch_scope(previous_scope);
    }
}

} // verus!
