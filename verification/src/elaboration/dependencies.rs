//! Elaborating and evaluating top-level bindings on demand, in whatever
//! order their uses reach them, and reporting cycles among them.

use vstd::prelude::*;
use super::Elaborator;
use crate::ast::{Binding, Phase};
use crate::comptime::{ComptimeValue, value_eq};
use super::evaluation::{constant_value, node_count, visible_value};
use super::analysis::literal_binding;
use crate::diagnostics::Diagnostic;
use crate::hir::{HirBinding, HirExpressionData};
use crate::source::{SourceId, Span};
use crate::symbols::{ScopeId, Symbol, SymbolId, SymbolKind};
use crate::text::join;
use crate::util::share;
use std::rc::Rc;

verus! {

broadcast use vstd::std_specs::hash::group_hash_axioms;

/// Where the work on a binding stands.
#[derive(Debug, Clone, Copy, PartialEq, Eq, Structural)]
pub enum WorkStatus {
    Pending,
    Active,
    Complete,
    Failed,
}

/// A declared top-level binding that has not been elaborated yet.
#[derive(Debug)]
pub struct PendingBinding {
    pub binding: Rc<Binding>,
    pub span: Span,
    pub defining_scope: ScopeId,
}

/// The name of `symbol` in `symbols`; empty for an identity the table does not hold.
/// `symbol` is a binding declared `comp`.
pub open spec fn is_comptime_binding(symbols: Seq<Symbol>, symbol: SymbolId) -> bool {
    &&& symbol.0 < symbols.len()
    &&& symbols[symbol.0 as int].kind matches SymbolKind::Binding { phase: Phase::Comptime, .. }
}

/// `symbol` waits to be elaborated, and is a `comp` binding of an integer
/// literal that fits its type, declared in an existing scope.
pub open spec fn pending_literal(e: Elaborator, symbol: SymbolId) -> bool {
    &&& e.elaboration_status@.get(symbol.0) == Some(WorkStatus::Pending)
    &&& e.pending_bindings@.contains_key(symbol.0)
    &&& literal_binding(*e.pending_bindings@[symbol.0].binding, e.sources, e.target)
    &&& e.pending_bindings@[symbol.0].defining_scope.0 < e.environment@.scopes.len()
}

/// `symbol` has been elaborated and waits for its value.
pub open spec fn pending_elaborated(e: Elaborator, symbol: SymbolId) -> bool {
    &&& e.evaluation_status@.get(symbol.0) == Some(WorkStatus::Pending)
    &&& e.elaboration_status@.get(symbol.0) == Some(WorkStatus::Complete)
    &&& e.elaborated_bindings@.contains_key(symbol.0)
}

pub open spec fn name_text(symbols: Seq<Symbol>, symbol: SymbolId) -> Seq<char> {
    if symbol.0 < symbols.len() { symbols[symbol.0 as int].name@ } else { Seq::empty() }
}

/// The names of the symbols of `chain`, each followed by " -> ".
pub open spec fn chain_text(symbols: Seq<Symbol>, chain: Seq<SymbolId>) -> Seq<char>
    decreases chain.len(),
{
    if chain.len() == 0 {
        Seq::empty()
    } else {
        chain_text(symbols, chain.drop_last()) + name_text(symbols, chain.last()) + " -> "@
    }
}

/// Where a cycle starts on `stack`: the first occurrence of `repeated`, or
/// the bottom of the stack when it does not occur.
pub open spec fn cycle_start_index(stack: Seq<SymbolId>, repeated: SymbolId) -> int {
    if stack.contains(repeated) {
        choose|i: int| 0 <= i < stack.len() && stack[i] == repeated && forall|j: int| 0 <= j < i ==> stack[j] != repeated
    } else {
        0
    }
}

/// The text of a cycle's label: the explanation, then the chain from where
/// the cycle starts on `stack`, ending with `repeated` again.
pub open spec fn cycle_text(explanation: Seq<char>, symbols: Seq<Symbol>, stack: Seq<SymbolId>, repeated: SymbolId) -> Seq<char> {
    explanation + ": "@ + chain_text(symbols, stack.subrange(cycle_start_index(stack, repeated), stack.len() as int)) + name_text(symbols, repeated)
}

impl<'src> Elaborator<'src> {
    /// Elaborates the top-level binding `symbol` unless that was done
    /// before, in the scope it was declared in; a binding that needs itself
    /// to be elaborated is reported as a cycle. The current scope is left as it was.
    pub fn ensure_binding_elaborated(&mut self, symbol: SymbolId) -> (result: Result<Rc<HirBinding>, ()>)
        requires
            old(self).inv(),
        ensures
            old(self).evolves(*final(self)),
            result matches Ok(hir) ==> {
                &&& final(self).elaborated_bindings@.contains_key(symbol.0)
                &&& final(self).elaborated_bindings@[symbol.0] == hir
                &&& hir.symbol == symbol
            },
            old(self).elaboration_status@.get(symbol.0) == Some(WorkStatus::Complete) ==> *final(self) == *old(self),
            old(self).elaboration_status@.get(symbol.0) == Some(WorkStatus::Active) ==> {
                &&& result is Err
                &&& final(self).diagnostics@.len() == old(self).diagnostics@.len() + 1
                &&& final(self).diagnostics@.last()@.message == "Binding elaboration cycle"@
                &&& final(self).diagnostics@.last()@.primary.text == cycle_text("the compiler cannot determine these binding types"@,
                    old(self).symbols.symbols@, old(self).elaboration_stack@, symbol)
            },
            old(self).elaboration_status@.get(symbol.0) == Some(WorkStatus::Complete) && old(self).elaborated_bindings@.contains_key(symbol.0)
                ==> result == Ok::<Rc<HirBinding>, ()>(old(self).elaborated_bindings@[symbol.0]),
            old(self).elaboration_status@.get(symbol.0) == Some(WorkStatus::Failed) ==> result is Err && *final(self) == *old(self),
            result is Ok ==> final(self).elaboration_status@.get(symbol.0) == Some(WorkStatus::Complete),
            pending_literal(*old(self), symbol) && old(self).fuel > 2 ==> (result matches Ok(hir)
                && hir.expression.data is Integer && hir.expression.type_ is Integer
                && final(self).diagnostics == old(self).diagnostics
                && final(self).fuel == old(self).fuel - 3
                && final(self).symbols.symbols@.len() == old(self).symbols.symbols@.len()
                && (symbol.0 < old(self).symbols.symbols@.len() ==>
                    final(self).symbols.symbols@[symbol.0 as int].kind == old(self).symbols.symbols@[symbol.0 as int].kind)),
        decreases old(self).fuel, 0nat,
    {
        let status = match self.elaboration_status.get(&symbol.0) {
            Some(status) => *status,
            None => {
                return Err(());
            },
        };
        match status {
            WorkStatus::Complete => {
                return match self.elaborated_bindings.get(&symbol.0) {
                    Some(binding) => Ok(share(binding)),
                    None => Err(()),
                };
            },
            WorkStatus::Failed => {
                return Err(());
            },
            WorkStatus::Active => {
                self.report_elaboration_cycle(symbol);
                return Err(());
            },
            WorkStatus::Pending => {},
        }
        let pending = match self.pending_bindings.get(&symbol.0) {
            Some(pending) => PendingBinding {
                binding: share(&pending.binding),
                span: pending.span,
                defining_scope: pending.defining_scope,
            },
            None => {
                self.elaboration_status.insert(symbol.0, WorkStatus::Active);
                self.elaboration_stack.push(symbol);
                return Err(());
            },
        };
        if !self.tick(pending.span) {
            return Err(());
        }
        if !self.scope_exists(pending.defining_scope) {
            return Err(());
        }
        self.elaboration_status.insert(symbol.0, WorkStatus::Active);
        self.elaboration_stack.push(symbol);
        let previous_scope = self.environment.switch_scope(pending.defining_scope);
        let result = self.analyze_binding(&pending.binding, pending.span, symbol);
        self.environment.switch_scope(previous_scope);
        self.elaboration_stack.pop();
        match result {
            Some(hir) => {
                let hir = Rc::new(hir);
                self.elaborated_bindings.insert(symbol.0, share(&hir));
                self.elaboration_status.insert(symbol.0, WorkStatus::Complete);
                Ok(hir)
            },
            None => {
                self.elaboration_status.insert(symbol.0, WorkStatus::Failed);
                Err(())
            },
        }
    }

    /// Evaluates the compile-time binding `symbol` unless that was done
    /// before, elaborating it first; a binding whose value needs itself is
    /// reported as a cycle. A runtime binding has no compile-time value.
    pub fn ensure_binding_evaluated(&mut self, symbol: SymbolId) -> (result: Result<ComptimeValue, ()>)
        requires
            old(self).inv(),
        ensures
            old(self).evolves(*final(self)),
            result matches Ok(v) ==> {
                &&& !(v is Error)
                &&& final(self).values.view_values().contains_key(symbol.0)
                &&& value_eq(v, final(self).values.view_values()[symbol.0])
            },
            old(self).evaluation_status@.get(symbol.0) == Some(WorkStatus::Complete) ==> *final(self) == *old(self),
            old(self).evaluation_status@.get(symbol.0) == Some(WorkStatus::Active) ==> {
                &&& result is Err
                &&& final(self).diagnostics@.len() == old(self).diagnostics@.len() + 1
                &&& final(self).diagnostics@.last()@.message == "Compile-time dependency cycle"@
                &&& final(self).diagnostics@.last()@.primary.text == cycle_text("these compile-time values recursively depend on eath other"@,
                    old(self).symbols.symbols@, old(self).evaluation_stack@, symbol)
            },
            old(self).evaluation_status@.get(symbol.0) == Some(WorkStatus::Complete) ==> match old(self).values.view_values().get(symbol.0) {
                Some(stored) => if stored is Error { result is Err } else { result matches Ok(v) && value_eq(v, stored) },
                None => result is Err,
            },
            result is Ok ==> final(self).evaluation_status@.get(symbol.0) == Some(WorkStatus::Complete),
            old(self).evaluation_status@.get(symbol.0) == Some(WorkStatus::Failed) ==> result is Err && *final(self) == *old(self),
            !old(self).evaluation_status@.contains_key(symbol.0) ==> result is Err && *final(self) == *old(self),
            pending_elaborated(*old(self), symbol) && !is_comptime_binding(old(self).symbols.symbols@, symbol) ==> result is Err,
            old(self).evaluation_status@.get(symbol.0) == Some(WorkStatus::Pending) && pending_literal(*old(self), symbol)
                && is_comptime_binding(old(self).symbols.symbols@, symbol) && old(self).fuel > 4
                ==> result is Ok && final(self).diagnostics@.len() == old(self).diagnostics@.len(),
            pending_elaborated(*old(self), symbol) && is_comptime_binding(old(self).symbols.symbols@, symbol) ==> {
                let e = old(self).elaborated_bindings@[symbol.0].expression;
                match constant_value(e, old(self).frames@, old(self).values.view_values(), old(self).target) {
                    Some(v) => old(self).fuel > node_count(e) && !(v is Error) ==> {
                        &&& result == Ok::<ComptimeValue, ()>(v)
                        &&& final(self).diagnostics@.len() == old(self).diagnostics@.len()
                    },
                    None => true,
                }
            },
            pending_elaborated(*old(self), symbol) && is_comptime_binding(old(self).symbols.symbols@, symbol) && old(self).fuel > 1 ==>
                match old(self).elaborated_bindings@[symbol.0].expression.data {
                    HirExpressionData::Symbol(named) => match visible_value(old(self).frames@, old(self).values.view_values(), named) {
                        Some(v) => !(v is Error) ==> (result matches Ok(r) && value_eq(r, v)),
                        None => true,
                    },
                    _ => true,
                },
        decreases old(self).fuel, 0nat,
    {
        let status = match self.evaluation_status.get(&symbol.0) {
            Some(status) => *status,
            None => {
                return Err(());
            },
        };
        match status {
            WorkStatus::Complete => {
                return match self.values.get(symbol) {
                    Some(value) => {
                        if value.is_error() {
                            Err(())
                        } else {
                            let copy = value.duplicate();
                            proof {
                                crate::comptime::lemma_value_eq_reflexive(copy);
                            }
                            Ok(copy)
                        }
                    },
                    None => Err(()),
                };
            },
            WorkStatus::Failed => {
                return Err(());
            },
            WorkStatus::Active => {
                self.report_evaluation_cycle(symbol);
                return Err(());
            },
            WorkStatus::Pending => {},
        }
        let span = self.declaration_span(symbol);
        if !self.tick(span) {
            return Err(());
        }
        let hir = match self.ensure_binding_elaborated(symbol) {
            Ok(hir) => hir,
            Err(()) => {
                return Err(());
            },
        };
        let is_comptime = if (symbol.0 as usize) < self.symbols.symbols.len() {
            match &self.symbols.get(symbol).kind {
                SymbolKind::Binding { phase: Phase::Comptime, .. } => true,
                _ => false,
            }
        } else {
            false
        };
        if !is_comptime {
            self.evaluation_status.insert(symbol.0, WorkStatus::Failed);
            return Err(());
        }
        self.evaluation_status.insert(symbol.0, WorkStatus::Active);
        self.evaluation_stack.push(symbol);
        let value = self.evaluate_expression(&hir.expression);
        self.evaluation_stack.pop();
        if value.is_error() {
            self.evaluation_status.insert(symbol.0, WorkStatus::Failed);
            return Err(());
        }
        let stored = value.duplicate();
        self.values.insert(symbol, stored);
        self.evaluation_status.insert(symbol.0, WorkStatus::Complete);
        Ok(value)
    }

    /// Where `symbol` was declared; the empty span at the start of the first
    /// file for a symbol without a declaration.
    pub(crate) fn declaration_span(&self, symbol: SymbolId) -> (span: Span)
        ensures
            span == (if symbol.0 < self.symbols.symbols@.len() && self.symbols.symbols@[symbol.0 as int].declaration_span is Some {
                self.symbols.symbols@[symbol.0 as int].declaration_span->0
            } else {
                Span { source: SourceId(0), start: 0, end: 0 }
            }),
    {
        if (symbol.0 as usize) < self.symbols.symbols.len() {
            match self.symbols.get(symbol).declaration_span {
                Some(span) => span,
                None => Span { source: SourceId(0), start: 0, end: 0 },
            }
        } else {
            Span { source: SourceId(0), start: 0, end: 0 }
        }
    }

    /// Reports the chain of compile-time values that ends in `repeated`
    /// needing itself.
    pub(crate) fn report_evaluation_cycle(&mut self, repeated: SymbolId)
        requires
            old(self).inv(),
        ensures
            old(self).evolves(*final(self)),
            final(self).fuel == old(self).fuel,
            final(self).diagnostics@.len() == old(self).diagnostics@.len() + 1,
            final(self).diagnostics@.last()@.message == "Compile-time dependency cycle"@,
            final(self).diagnostics@.last()@.primary.text == cycle_text("these compile-time values recursively depend on eath other"@,
                old(self).symbols.symbols@, old(self).evaluation_stack@, repeated),
    {
        proof {
            reveal_strlit("Compile-time dependency cycle");
            reveal_strlit("these compile-time values recursively depend on eath other");
        }
        let stack = self.evaluation_stack.clone();
        self.report_cycle(
            "Compile-time dependency cycle",
            "these compile-time values recursively depend on eath other",
            &stack,
            repeated,
        );
    }

    /// Reports the chain of bindings that ends in `repeated` needing its own
    /// type to be elaborated.
    pub(crate) fn report_elaboration_cycle(&mut self, repeated: SymbolId)
        requires
            old(self).inv(),
        ensures
            old(self).evolves(*final(self)),
            final(self).fuel == old(self).fuel,
            final(self).diagnostics@.len() == old(self).diagnostics@.len() + 1,
            final(self).diagnostics@.last()@.message == "Binding elaboration cycle"@,
            final(self).diagnostics@.last()@.primary.text == cycle_text("the compiler cannot determine these binding types"@,
                old(self).symbols.symbols@, old(self).elaboration_stack@, repeated),
    {
        proof {
            reveal_strlit("Binding elaboration cycle");
            reveal_strlit("the compiler cannot determine these binding types");
        }
        let stack = self.elaboration_stack.clone();
        self.report_cycle(
            "Binding elaboration cycle",
            "the compiler cannot determine these binding types",
            &stack,
            repeated,
        );
    }

    /// The name of `symbol`; empty for an identity the table does not hold.
    pub(crate) fn symbol_name(&self, symbol: SymbolId) -> (name: String)
        ensures
            name@ == (if symbol.0 < self.symbols.symbols@.len() {
                self.symbols.symbols@[symbol.0 as int].name@
            } else {
                Seq::<char>::empty()
            }),
    {
        if (symbol.0 as usize) < self.symbols.symbols.len() {
            self.symbols.get(symbol).name.clone()
        } else {
            String::new()
        }
    }

    /// Reports a cycle: the part of `stack` from the first occurrence of
    /// `repeated` on, then `repeated` again, by name, at the declaration of
    /// `repeated`.
    fn report_cycle(&mut self, title: &str, explanation: &str, stack: &[SymbolId], repeated: SymbolId)
        requires
            old(self).inv(),
        ensures
            old(self).evolves(*final(self)),
            final(self).fuel == old(self).fuel,
            final(self).diagnostics@.len() == old(self).diagnostics@.len() + 1,
            final(self).diagnostics@.last()@.message == title@,
            final(self).diagnostics@.last()@.primary.text == cycle_text(explanation@, old(self).symbols.symbols@, stack@, repeated),
    {
        let mut cycle_start: usize = 0;
        let mut found = false;
        let mut i: usize = 0;
        while i < stack.len() && !found
            invariant
                i <= stack@.len(),
                cycle_start <= i,
                found ==> cycle_start < stack@.len() && stack@[cycle_start as int] == repeated
                    && forall|j: int| 0 <= j < cycle_start ==> stack@[j] != repeated,
                !found ==> cycle_start == 0 && forall|j: int| 0 <= j < i ==> stack@[j] != repeated,
            decreases stack@.len() - i,
        {
            if stack[i] == repeated {
                cycle_start = i;
                found = true;
            }
            i += 1;
        }
        proof {
            if stack@.contains(repeated) {
                let w = choose|w: int| 0 <= w < stack@.len() && stack@[w] == repeated;
                assert(found);
                let c = cycle_start_index(stack@, repeated);
                assert(c == cycle_start as int) by {
                    if c < cycle_start as int {
                        assert(stack@[c] == repeated);
                    } else if c > cycle_start as int {
                        assert(stack@[cycle_start as int] == repeated);
                    }
                }
            } else {
                assert(cycle_start_index(stack@, repeated) == 0);
                if found {
                    assert(stack@.contains(repeated));
                }
            }
            assert(cycle_start as int == cycle_start_index(stack@, repeated));
            reveal_strlit(" -> ");
            reveal_strlit(": ");
        }
        let mut path = String::new();
        let mut k: usize = cycle_start;
        assert(stack@.subrange(cycle_start as int, cycle_start as int) =~= Seq::<SymbolId>::empty());
        while k < stack.len()
            invariant
                cycle_start <= k <= stack@.len(),
                path@ == chain_text(self.symbols.symbols@, stack@.subrange(cycle_start as int, k as int)),
            decreases stack@.len() - k,
        {
            let name = self.symbol_name(stack[k]);
            path = join(path, name.as_str());
            path = join(path, " -> ");
            proof {
                assert(stack@.subrange(cycle_start as int, k + 1).drop_last() =~= stack@.subrange(cycle_start as int, k as int));
            }
            k += 1;
        }
        let repeated_name = self.symbol_name(repeated);
        path = join(path, repeated_name.as_str());
        let span = self.declaration_span(repeated);
        let message = join(join(String::from_str(explanation), ": "), path.as_str());
        self.report(Diagnostic::error(String::from_str(title), span, message));
    }
}

} // verus!
