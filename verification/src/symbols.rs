//! Symbols, scopes and the environment of names.

use vstd::prelude::*;
use vstd::std_specs::convert::FromSpecImpl;
use crate::ast::Phase;
use crate::source::{SourceId, Span};
use crate::types::Type;
use crate::util::{Store, converts, index_of};

verus! {

/// Identifies a module.
#[derive(Debug, Clone, Copy, PartialEq, Eq, Structural, Hash)]
pub struct ModuleId(pub usize);

impl From<usize> for ModuleId {
    fn from(value: usize) -> (id: ModuleId) {
        ModuleId(value)
    }
}

impl FromSpecImpl<usize> for ModuleId {
    open spec fn obeys_from_spec() -> bool {
        true
    }

    open spec fn from_spec(v: usize) -> ModuleId {
        ModuleId(v)
    }
}

impl From<ModuleId> for usize {
    fn from(value: ModuleId) -> (index: usize) {
        value.0
    }
}

impl FromSpecImpl<ModuleId> for usize {
    open spec fn obeys_from_spec() -> bool {
        true
    }

    open spec fn from_spec(v: ModuleId) -> usize {
        v.0
    }
}

/// Law: a module identifier and its index convert into each other.
pub proof fn lemma_module_ids_convert()
    ensures
        converts::<ModuleId>(),
        forall|id: ModuleId| #[trigger] index_of(id) == id.0,
{
}

/// A module: the file it was read from and the scope of its top-level names.
pub struct Module {
    pub source: SourceId,
    pub scope: ScopeId,
}

/// The modules of a compilation, indexed by [`ModuleId`].
pub type ModuleStore = Store<ModuleId, Module>;

/// Identifies a scope of an [`Environment`].
#[derive(Debug, Clone, Copy, PartialEq, Eq, Structural, Hash)]
pub struct ScopeId(pub usize);

/// Identifies a symbol of a [`SymbolTable`]: its index there.
#[derive(Debug, Clone, Copy, PartialEq, Eq, Structural, Hash)]
pub struct SymbolId(pub u32);

/// The symbol that the latest binding of `name` in `bindings` gives.
pub open spec fn binding_lookup(bindings: Seq<(Seq<char>, SymbolId)>, name: Seq<char>) -> Option<SymbolId>
    decreases bindings.len(),
{
    if bindings.len() == 0 {
        None
    } else if bindings.last().0 == name {
        Some(bindings.last().1)
    } else {
        binding_lookup(bindings.drop_last(), name)
    }
}

/// A scope as plain values: its parent and its bindings, oldest first.
pub struct ScopeView {
    pub parent: Option<ScopeId>,
    pub bindings: Seq<(Seq<char>, SymbolId)>,
}

/// A scope: the names bound in it and the scope it is nested in.
pub struct Scope {
    parent: Option<ScopeId>,
    bindings: Vec<(String, SymbolId)>,
}

impl View for Scope {
    type V = ScopeView;

    closed spec fn view(&self) -> ScopeView {
        ScopeView {
            parent: self.parent,
            bindings: self.bindings@.map_values(|b: (String, SymbolId)| (b.0@, b.1)),
        }
    }
}

impl Scope {
    /// An empty scope nested in `parent`.
    pub fn new(parent: ScopeId) -> (scope: Scope)
        ensures
            scope@.parent == Some(parent),
            scope@.bindings.len() == 0,
    {
        let scope = Scope { parent: Some(parent), bindings: Vec::new() };
        assert(scope@.bindings =~= Seq::<(Seq<char>, SymbolId)>::empty());
        scope
    }

    /// The symbol that `key` is bound to in this scope itself.
    pub fn get(&self, key: &str) -> (symbol: Option<&SymbolId>)
        ensures
            match symbol {
                Some(s) => binding_lookup(self@.bindings, key@) == Some(*s),
                None => binding_lookup(self@.bindings, key@) is None,
            },
    {
        let key_string = String::from_str(key);
        let mut i: usize = self.bindings.len();
        assert(self@.bindings.take(i as int) =~= self@.bindings);
        while i > 0
            invariant
                i <= self.bindings@.len(),
                key_string@ == key@,
                binding_lookup(self@.bindings, key@) == binding_lookup(self@.bindings.take(i as int), key@),
            decreases i,
        {
            let ghost prefix = self@.bindings.take(i as int);
            assert(prefix.drop_last() =~= self@.bindings.take(i - 1));
            if self.bindings[i - 1].0 == key_string {
                return Some(&self.bindings[i - 1].1);
            }
            i = i - 1;
        }
        None
    }
}

/// An environment as plain values: its scopes and the current one.
pub struct EnvironmentView {
    pub scopes: Seq<ScopeView>,
    pub current: ScopeId,
}

/// Every scope's parent comes before it, and the current scope exists.
pub open spec fn environment_wf(env: EnvironmentView) -> bool {
    &&& env.current.0 < env.scopes.len()
    &&& forall|i: int| 0 <= i < env.scopes.len() ==> match #[trigger] env.scopes[i].parent {
        Some(p) => p.0 < i,
        None => true,
    }
}

/// The symbol that `name` stands for seen from `scope`: its binding in that
/// scope, else in the scopes it is nested in, nearest first.
pub open spec fn lookup_from_spec(scopes: Seq<ScopeView>, scope: ScopeId, name: Seq<char>) -> Option<SymbolId>
    decreases scope.0,
{
    if scope.0 >= scopes.len() {
        None
    } else {
        match binding_lookup(scopes[scope.0 as int].bindings, name) {
            Some(symbol) => Some(symbol),
            None => match scopes[scope.0 as int].parent {
                Some(parent) => if parent.0 < scope.0 {
                    lookup_from_spec(scopes, parent, name)
                } else {
                    None
                },
                None => None,
            },
        }
    }
}

/// The environment after binding `name` to `symbol` in its current scope.
pub open spec fn define_spec(env: EnvironmentView, name: Seq<char>, symbol: SymbolId) -> EnvironmentView {
    let scope = env.scopes[env.current.0 as int];
    EnvironmentView {
        scopes: env.scopes.update(
            env.current.0 as int,
            ScopeView { parent: scope.parent, bindings: scope.bindings.push((name, symbol)) },
        ),
        current: env.current,
    }
}

/// The environment after entering a new, empty scope nested in the current one.
pub open spec fn push_scope_spec(env: EnvironmentView) -> EnvironmentView {
    EnvironmentView {
        scopes: env.scopes.push(ScopeView { parent: Some(env.current), bindings: Seq::empty() }),
        current: ScopeId(env.scopes.len() as usize),
    }
}

/// The environment after leaving the current scope for its parent.
pub open spec fn pop_scope_spec(env: EnvironmentView) -> EnvironmentView {
    EnvironmentView { scopes: env.scopes, current: env.scopes[env.current.0 as int].parent.unwrap() }
}

/// The names in scope: a stack of nested scopes, of which one is current.
pub struct Environment {
    scopes: Vec<Scope>,
    current: ScopeId,
}

impl View for Environment {
    type V = EnvironmentView;

    closed spec fn view(&self) -> EnvironmentView {
        EnvironmentView { scopes: self.scopes@.map_values(|s: Scope| s@), current: self.current }
    }
}

impl Environment {
    /// The scope that names are bound in and looked up from.
    pub fn current_scope(&self) -> (scope: ScopeId)
        ensures
            scope == self@.current,
    {
        self.current
    }

    /// The number of scopes.
    pub fn scope_count(&self) -> (count: usize)
        ensures
            count == self@.scopes.len(),
    {
        self.scopes.len()
    }

    /// An environment with one empty root scope, which is current.
    pub fn new() -> (env: Environment)
        ensures
            env@.scopes.len() == 1,
            env@.scopes[0].parent is None,
            env@.scopes[0].bindings.len() == 0,
            env@.current == ScopeId(0),
            environment_wf(env@),
    {
        let root = Scope { parent: None, bindings: Vec::new() };
        let mut scopes: Vec<Scope> = Vec::new();
        scopes.push(root);
        let env = Environment { scopes, current: ScopeId(0) };
        assert(env@.scopes[0].bindings =~= Seq::<(Seq<char>, SymbolId)>::empty());
        env
    }

    /// Binds `name` to `symbol` in the current scope.
    pub fn define(&mut self, name: String, symbol: SymbolId)
        requires
            environment_wf(old(self)@),
        ensures
            final(self)@ == define_spec(old(self)@, name@, symbol),
            environment_wf(final(self)@),
    {
        let index = self.current.0;
        let ghost name_view = name@;
        let mut scope = Scope { parent: None, bindings: Vec::new() };
        std::mem::swap(&mut scope, &mut self.scopes[index]);
        scope.bindings.push((name, symbol));
        let ghost pushed = scope@;
        std::mem::swap(&mut scope, &mut self.scopes[index]);
        proof {
            let expected = define_spec(old(self)@, name_view, symbol);
            assert(pushed.bindings =~= old(self)@.scopes[index as int].bindings.push((name_view, symbol)));
            assert(self@.scopes =~= expected.scopes);
        }
    }

    /// Enters a new, empty scope nested in the current one.
    pub fn push_scope(&mut self)
        requires
            environment_wf(old(self)@),
        ensures
            final(self)@ == push_scope_spec(old(self)@),
            final(self)@.current.0 == old(self)@.scopes.len(),
            environment_wf(final(self)@),
    {
        let parent = self.current;
        let new = Scope::new(parent);
        let ghost new_view = new@;
        self.scopes.push(new);
        self.current = ScopeId(self.scopes.len() - 1);
        proof {
            let expected = push_scope_spec(old(self)@);
            assert(new_view.bindings =~= Seq::<(Seq<char>, SymbolId)>::empty());
            assert(self.scopes@.last()@ == new_view);
            assert forall|i: int| 0 <= i < self@.scopes.len() implies #[trigger] self@.scopes[i] == expected.scopes[i] by {
                if i < old(self)@.scopes.len() {
                    assert(self.scopes@[i] == old(self).scopes@[i]);
                }
            }
            assert(self@.scopes =~= expected.scopes);
        }
    }

    /// Leaves the current scope for the scope it is nested in.
    pub fn pop_scope(&mut self)
        requires
            environment_wf(old(self)@),
            old(self)@.scopes[old(self)@.current.0 as int].parent is Some,
        ensures
            final(self)@ == pop_scope_spec(old(self)@),
            environment_wf(final(self)@),
    {
        let parent = self.scopes[self.current.0].parent;
        match parent {
            Some(p) => {
                self.current = p;
            },
            None => {},
        }
    }

    /// Makes `scope` current and returns the scope that was current.
    pub fn switch_scope(&mut self, scope: ScopeId) -> (previous: ScopeId)
        requires
            environment_wf(old(self)@),
            scope.0 < old(self)@.scopes.len(),
        ensures
            previous == old(self)@.current,
            final(self)@ == (EnvironmentView { scopes: old(self)@.scopes, current: scope }),
            environment_wf(final(self)@),
    {
        let previous = self.current;
        self.current = scope;
        previous
    }

    /// The symbol that `name` stands for, seen from the current scope.
    pub fn lookup(&self, name: &str) -> (symbol: Option<SymbolId>)
        requires
            environment_wf(self@),
        ensures
            symbol == lookup_from_spec(self@.scopes, self@.current, name@),
    {
        self.lookup_from(self.current, name)
    }

    /// The symbol that `name` stands for, seen from `scope`.
    pub fn lookup_from(&self, scope: ScopeId, name: &str) -> (symbol: Option<SymbolId>)
        requires
            environment_wf(self@),
        ensures
            symbol == lookup_from_spec(self@.scopes, scope, name@),
    {
        if scope.0 >= self.scopes.len() {
            return None;
        }
        let mut id = scope;
        loop
            invariant
                environment_wf(self@),
                id.0 < self@.scopes.len(),
                lookup_from_spec(self@.scopes, scope, name@) == lookup_from_spec(self@.scopes, id, name@),
            decreases id.0,
        {
            let current = &self.scopes[id.0];
            assert(current@ == self@.scopes[id.0 as int]);
            match current.get(name) {
                Some(symbol) => {
                    return Some(*symbol);
                },
                None => {},
            }
            match current.parent {
                Some(parent) => {
                    assert(self@.scopes[id.0 as int].parent == Some(parent));
                    id = parent;
                },
                None => {
                    return None;
                },
            }
        }
    }

    /// The symbol that `name` stands for, seen from `scope`.
    pub fn lookup_in(&self, scope: ScopeId, name: &str) -> (symbol: Option<SymbolId>)
        requires
            environment_wf(self@),
        ensures
            symbol == lookup_from_spec(self@.scopes, scope, name@),
    {
        self.lookup_from(scope, name)
    }

    /// The symbol that `name` is bound to in the current scope itself.
    pub fn lookup_current(&self, name: &str) -> (symbol: Option<SymbolId>)
        requires
            environment_wf(self@),
        ensures
            symbol == binding_lookup(self@.scopes[self@.current.0 as int].bindings, name@),
    {
        let scope = &self.scopes[self.current.0];
        assert(scope@ == self@.scopes[self@.current.0 as int]);
        match scope.get(name) {
            Some(symbol) => Some(*symbol),
            None => None,
        }
    }
}

/// Law: after `name` is bound to `symbol` in the current scope, looking up
/// `name` from the current scope gives `symbol`.
pub proof fn lemma_lookup_after_define(env: EnvironmentView, name: Seq<char>, symbol: SymbolId)
    requires
        environment_wf(env),
    ensures
        lookup_from_spec(define_spec(env, name, symbol).scopes, env.current, name) == Some(symbol),
{
    let after = define_spec(env, name, symbol);
    assert(after.scopes[env.current.0 as int].bindings.last() == (name, symbol));
}

/// Law: binding one name leaves what every other name stands for, from every
/// scope, unchanged.
pub proof fn lemma_define_keeps_other_names(
    env: EnvironmentView,
    name: Seq<char>,
    symbol: SymbolId,
    other: Seq<char>,
    scope: ScopeId,
)
    requires
        environment_wf(env),
        other != name,
    ensures
        lookup_from_spec(define_spec(env, name, symbol).scopes, scope, other)
            == lookup_from_spec(env.scopes, scope, other),
    decreases scope.0,
{
    let after = define_spec(env, name, symbol);
    if scope.0 < env.scopes.len() {
        let bindings = env.scopes[scope.0 as int].bindings;
        if scope == env.current {
            assert(after.scopes[scope.0 as int].bindings.drop_last() =~= bindings);
        }
        assert(binding_lookup(after.scopes[scope.0 as int].bindings, other) == binding_lookup(bindings, other));
        match env.scopes[scope.0 as int].parent {
            Some(parent) => {
                if parent.0 < scope.0 {
                    lemma_define_keeps_other_names(env, name, symbol, other, parent);
                }
            },
            None => {},
        }
    }
}

/// Lookups from the scopes of `env` see the same symbols in `bigger`, which
/// holds the same scopes and more after them.
pub proof fn lemma_lookup_in_extension(env: EnvironmentView, bigger: Seq<ScopeView>, scope: ScopeId, name: Seq<char>)
    requires
        bigger.len() >= env.scopes.len(),
        forall|i: int| 0 <= i < env.scopes.len() ==> bigger[i] == env.scopes[i],
        scope.0 < env.scopes.len(),
    ensures
        lookup_from_spec(bigger, scope, name) == lookup_from_spec(env.scopes, scope, name),
    decreases scope.0,
{
    match env.scopes[scope.0 as int].parent {
        Some(parent) => {
            if parent.0 < scope.0 {
                lemma_lookup_in_extension(env, bigger, parent, name);
            }
        },
        None => {},
    }
}

/// Law: in a newly entered scope every name stands for what it stood for
/// in the scope it was entered from.
pub proof fn lemma_fresh_scope_sees_parent(env: EnvironmentView, name: Seq<char>)
    requires
        environment_wf(env),
        env.scopes.len() < usize::MAX,
    ensures
        lookup_from_spec(push_scope_spec(env).scopes, push_scope_spec(env).current, name)
            == lookup_from_spec(env.scopes, env.current, name),
{
    let after = push_scope_spec(env);
    let fresh = after.scopes[env.scopes.len() as int];
    assert(fresh.bindings.len() == 0);
    assert(binding_lookup(fresh.bindings, name) is None);
    assert(fresh.parent == Some(env.current));
    lemma_lookup_in_extension(env, after.scopes, env.current, name);
}

/// Law: entering a scope and then leaving it gives back the scope that was
/// current, and every name stands for what it stood for before, from every
/// scope that existed before.
pub proof fn lemma_pop_undoes_push(env: EnvironmentView, scope: ScopeId, name: Seq<char>)
    requires
        environment_wf(env),
        env.scopes.len() < usize::MAX,
        scope.0 < env.scopes.len(),
    ensures
        pop_scope_spec(push_scope_spec(env)).current == env.current,
        lookup_from_spec(pop_scope_spec(push_scope_spec(env)).scopes, scope, name)
            == lookup_from_spec(env.scopes, scope, name),
{
    let pushed = push_scope_spec(env);
    assert(pushed.scopes[env.scopes.len() as int].parent == Some(env.current));
    let after = pop_scope_spec(pushed);
    lemma_lookup_in_extension(env, after.scopes, scope, name);
}

/// Every name that the environment binds, in any scope, stands for a
/// symbol of the table that carries that name.
pub open spec fn bindings_named(env: EnvironmentView, symbols: Seq<Symbol>) -> bool {
    forall|i: int, j: int| 0 <= i < env.scopes.len() && 0 <= j < env.scopes[i].bindings.len() ==> {
        &&& (#[trigger] env.scopes[i].bindings[j]).1.0 < symbols.len()
        &&& symbols[env.scopes[i].bindings[j].1.0 as int].name@ == env.scopes[i].bindings[j].0
    }
}

/// What a binding list gives for `name` is one of its entries for `name`.
proof fn lemma_binding_lookup_entry(bindings: Seq<(Seq<char>, SymbolId)>, name: Seq<char>)
    ensures
        binding_lookup(bindings, name) matches Some(symbol) ==>
            exists|j: int| 0 <= j < bindings.len() && #[trigger] bindings[j] == (name, symbol),
    decreases bindings.len(),
{
    if bindings.len() > 0 {
        if bindings.last().0 == name {
            assert(bindings[bindings.len() - 1] == (name, bindings.last().1));
        } else {
            lemma_binding_lookup_entry(bindings.drop_last(), name);
            match binding_lookup(bindings, name) {
                Some(symbol) => {
                    let j = choose|j: int| 0 <= j < bindings.drop_last().len() && #[trigger] bindings.drop_last()[j] == (name, symbol);
                    assert(bindings[j] == (name, symbol));
                },
                None => {},
            }
        }
    }
}

/// Law: when every binding names a symbol of its name, a name looked up
/// from any scope stands for a symbol of the table with that very name.
pub proof fn lemma_lookup_gives_named_symbol(env: EnvironmentView, symbols: Seq<Symbol>, scope: ScopeId, name: Seq<char>)
    requires
        bindings_named(env, symbols),
    ensures
        lookup_from_spec(env.scopes, scope, name) matches Some(symbol) ==> {
            &&& symbol.0 < symbols.len()
            &&& symbols[symbol.0 as int].name@ == name
        },
    decreases scope.0,
{
    if scope.0 < env.scopes.len() {
        let bindings = env.scopes[scope.0 as int].bindings;
        lemma_binding_lookup_entry(bindings, name);
        match binding_lookup(bindings, name) {
            Some(symbol) => {
                let j = choose|j: int| 0 <= j < bindings.len() && #[trigger] bindings[j] == (name, symbol);
                assert(env.scopes[scope.0 as int].bindings[j] == (name, symbol));
            },
            None => match env.scopes[scope.0 as int].parent {
                Some(parent) => if parent.0 < scope.0 {
                    lemma_lookup_gives_named_symbol(env, symbols, parent, name);
                },
                None => {},
            },
        }
    }
}

/// Binding a name to a symbol of that name keeps every binding named.
pub proof fn lemma_define_keeps_bindings_named(env: EnvironmentView, symbols: Seq<Symbol>, name: Seq<char>, symbol: SymbolId)
    requires
        environment_wf(env),
        bindings_named(env, symbols),
        symbol.0 < symbols.len(),
        symbols[symbol.0 as int].name@ == name,
    ensures
        bindings_named(define_spec(env, name, symbol), symbols),
{
    let after = define_spec(env, name, symbol);
    assert forall|i: int, j: int| 0 <= i < after.scopes.len() && 0 <= j < after.scopes[i].bindings.len() implies {
        &&& (#[trigger] after.scopes[i].bindings[j]).1.0 < symbols.len()
        &&& symbols[after.scopes[i].bindings[j].1.0 as int].name@ == after.scopes[i].bindings[j].0
    } by {
        if i == env.current.0 && j == env.scopes[i].bindings.len() {
        } else {
            assert(after.scopes[i].bindings[j] == env.scopes[i].bindings[j]);
        }
    }
}

/// Entering a fresh scope, or adding symbols to the table, keeps every binding named.
pub proof fn lemma_growth_keeps_bindings_named(env: EnvironmentView, symbols: Seq<Symbol>, more: Seq<Symbol>)
    requires
        bindings_named(env, symbols),
        symbols.len() <= more.len(),
        forall|k: int| 0 <= k < symbols.len() ==> (#[trigger] more[k]).name == symbols[k].name,
    ensures
        bindings_named(env, more),
        bindings_named(push_scope_spec(env), more),
{
    let pushed = push_scope_spec(env);
    assert forall|i: int, j: int| 0 <= i < pushed.scopes.len() && 0 <= j < pushed.scopes[i].bindings.len() implies {
        &&& (#[trigger] pushed.scopes[i].bindings[j]).1.0 < more.len()
        &&& more[pushed.scopes[i].bindings[j].1.0 as int].name@ == pushed.scopes[i].bindings[j].0
    } by {
        assert(i < env.scopes.len());
        assert(pushed.scopes[i].bindings[j] == env.scopes[i].bindings[j]);
        let k = env.scopes[i].bindings[j].1.0 as int;
        assert(more[k].name == symbols[k].name);
    }
    assert forall|i: int, j: int| 0 <= i < env.scopes.len() && 0 <= j < env.scopes[i].bindings.len() implies {
        &&& (#[trigger] env.scopes[i].bindings[j]).1.0 < more.len()
        &&& more[env.scopes[i].bindings[j].1.0 as int].name@ == env.scopes[i].bindings[j].0
    } by {
        let k = env.scopes[i].bindings[j].1.0 as int;
        assert(more[k].name == symbols[k].name);
    }
}

/// A symbol: its name, where it was declared, what it is and its type.
#[derive(Debug)]
pub struct Symbol {
    pub name: String,
    pub declaration_span: Option<Span>,
    pub kind: SymbolKind,
    pub type_: Type,
}

/// What a symbol names.
#[derive(Debug)]
pub enum SymbolKind {
    BuiltinType(Type),
    Binding { phase: Phase, mutable: bool },
    ComptimeParameter,
    Parameter,
    Local { mutable: bool },
    ExternFunction { abi: ExternAbi, link_name: String },
}

/// The calling conventions of external functions.
#[derive(Debug, Clone, Copy, PartialEq, Eq, Structural, Hash)]
pub enum ExternAbi {
    C,
}

/// All symbols of a compilation, each at the index of its identity.
#[derive(Debug)]
pub struct SymbolTable {
    pub symbols: Vec<Symbol>,
}

impl SymbolTable {
    /// A table with no symbols.
    pub fn new() -> (table: SymbolTable)
        ensures
            table.symbols@.len() == 0,
    {
        SymbolTable { symbols: Vec::new() }
    }

    /// Adds a symbol at the end; its identity is its index.
    pub fn insert(&mut self, symbol: Symbol) -> (id: SymbolId)
        requires
            old(self).symbols@.len() < u32::MAX,
        ensures
            final(self).symbols@ == old(self).symbols@.push(symbol),
            id.0 == old(self).symbols@.len(),
    {
        let id = SymbolId(self.symbols.len() as u32);
        self.symbols.push(symbol);
        id
    }

    /// The symbol with the given identity.
    pub fn get(&self, id: SymbolId) -> (symbol: &Symbol)
        requires
            id.0 < self.symbols@.len(),
        ensures
            *symbol == self.symbols@[id.0 as int],
    {
        &self.symbols[id.0 as usize]
    }

    /// The symbol with the given identity, for changing.
    pub fn get_mut(&mut self, id: SymbolId) -> (symbol: &mut Symbol)
        requires
            id.0 < old(self).symbols@.len(),
        ensures
            *symbol == old(self).symbols@[id.0 as int],
            final(self).symbols@ == old(self).symbols@.update(id.0 as int, *final(symbol)),
    {
        &mut self.symbols[id.0 as usize]
    }

    /// The first symbol named `name`, with its identity.
    pub fn find_by_name(&self, name: &str) -> (found: Option<(SymbolId, &Symbol)>)
        requires
            self.symbols@.len() <= u32::MAX,
        ensures
            match found {
                Some((id, symbol)) => {
                    &&& id.0 < self.symbols@.len()
                    &&& *symbol == self.symbols@[id.0 as int]
                    &&& symbol.name@ == name@
                    &&& forall|i: int| 0 <= i < id.0 ==> #[trigger] self.symbols@[i].name@ != name@
                },
                None => forall|i: int| 0 <= i < self.symbols@.len() ==> #[trigger] self.symbols@[i].name@ != name@,
            },
    {
        let wanted = String::from_str(name);
        let mut i: usize = 0;
        while i < self.symbols.len()
            invariant
                i <= self.symbols@.len(),
                self.symbols@.len() <= u32::MAX,
                wanted@ == name@,
                forall|k: int| 0 <= k < i ==> #[trigger] self.symbols@[k].name@ != name@,
            decreases self.symbols@.len() - i,
        {
            if self.symbols[i].name == wanted {
                return Some((SymbolId(i as u32), &self.symbols[i]));
            }
            i += 1;
        }
        None
    }
}

} // verus!
