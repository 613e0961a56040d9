//! Values that exist while compiling, and the stores that hold them.

use vstd::prelude::*;
use crate::ast::FunctionExpression;
use crate::hir::HirFunctionExpression;
use crate::symbols::{ScopeId, SymbolId};
use crate::types::{IntegerType, Type, type_eq, lemma_type_eq_reflexive, lemma_type_eq_symmetric};
use std::collections::HashMap;
use std::rc::Rc;

verus! {

broadcast use vstd::std_specs::hash::group_hash_axioms;

/// Identifies a function template, a function with compile-time parameters.
#[derive(Debug, Clone, Copy, PartialEq, Eq, Structural, Hash)]
pub struct FunctionTemplateId(pub u32);

impl FunctionTemplateId {
    /// The index of the template in its store.
    pub fn index(self) -> (index: u32)
        ensures
            index == self.0,
    {
        self.0
    }
}

/// A function with compile-time parameters, kept unelaborated until it is
/// specialized, with the scope its names are resolved in.
#[derive(Debug)]
pub struct FunctionTemplate {
    pub ast: Rc<FunctionExpression>,
    pub defining_scope: ScopeId,
}

/// A value computed while compiling.
#[derive(Debug)]
pub enum ComptimeValue {
    Integer { value: i128, type_: IntegerType },
    ExternFunction(SymbolId),
    Function(FunctionId),
    FunctionTemplate(FunctionTemplateId),
    Type(Type),
    Bool(bool),
    String(String),
    Unit,
    Error,
}

/// Two compile-time values are the same value.
pub open spec fn value_eq(a: ComptimeValue, b: ComptimeValue) -> bool {
    match (a, b) {
        (ComptimeValue::Type(t1), ComptimeValue::Type(t2)) => type_eq(t1, t2),
        (ComptimeValue::String(s1), ComptimeValue::String(s2)) => s1@ == s2@,
        (ComptimeValue::Type(_), _) => false,
        (ComptimeValue::String(_), _) => false,
        _ => a == b,
    }
}

/// Law: every value is the same value as itself.
pub proof fn lemma_value_eq_reflexive(v: ComptimeValue)
    ensures
        value_eq(v, v),
{
    if let ComptimeValue::Type(t) = v {
        lemma_type_eq_reflexive(t);
    }
}

impl ComptimeValue {
    /// A copy of the value.
    pub fn duplicate(&self) -> (copy: ComptimeValue)
        ensures
            value_eq(copy, *self),
            value_eq(*self, copy),
    {
        let copy = match self {
            ComptimeValue::Integer { value, type_ } => ComptimeValue::Integer { value: *value, type_: *type_ },
            ComptimeValue::ExternFunction(s) => ComptimeValue::ExternFunction(*s),
            ComptimeValue::Function(f) => ComptimeValue::Function(*f),
            ComptimeValue::FunctionTemplate(t) => ComptimeValue::FunctionTemplate(*t),
            ComptimeValue::Type(t) => ComptimeValue::Type(t.duplicate()),
            ComptimeValue::Bool(b) => ComptimeValue::Bool(*b),
            ComptimeValue::String(s) => ComptimeValue::String(s.clone()),
            ComptimeValue::Unit => ComptimeValue::Unit,
            ComptimeValue::Error => ComptimeValue::Error,
        };
        proof {
            if copy is Type && *self is Type {
                lemma_type_eq_symmetric(copy->Type_0, self->Type_0);
            }
        }
        copy
    }

    /// Whether this is the value of a computation that failed.
    pub fn is_error(&self) -> (error: bool)
        ensures
            error == (*self is Error),
    {
        matches!(self, ComptimeValue::Error)
    }
}

/// The values of the compile-time bindings, by symbol.
#[derive(Debug)]
pub struct ValueStore {
    map: HashMap<u32, ComptimeValue>,
}

impl ValueStore {
    /// The value of each symbol that has one, by the symbol's index.
    pub closed spec fn view_values(&self) -> Map<u32, ComptimeValue> {
        self.map@
    }

    /// A store with no values.
    pub fn new() -> (store: ValueStore)
        ensures
            store.view_values() == Map::<u32, ComptimeValue>::empty(),
    {
        ValueStore { map: HashMap::new() }
    }

    /// Records `value` as the value of `symbol`, replacing any earlier one.
    pub fn insert(&mut self, symbol: SymbolId, value: ComptimeValue)
        ensures
            final(self).view_values() == old(self).view_values().insert(symbol.0, value),
    {
        self.map.insert(symbol.0, value);
    }

    /// The value of `symbol`, if it has one.
    pub fn get(&self, symbol: SymbolId) -> (value: Option<&ComptimeValue>)
        ensures
            match value {
                Some(v) => self.view_values().contains_key(symbol.0) && *v == self.view_values()[symbol.0],
                None => !self.view_values().contains_key(symbol.0),
            },
    {
        self.map.get(&symbol.0)
    }
}

/// Law: after a value is recorded for a symbol, the store gives that value
/// for that symbol and the values of all other symbols are unchanged.
pub proof fn lemma_value_store_read_after_write(
    values: Map<u32, ComptimeValue>,
    symbol: SymbolId,
    value: ComptimeValue,
    other: SymbolId,
)
    ensures
        values.insert(symbol.0, value).contains_key(symbol.0),
        values.insert(symbol.0, value)[symbol.0] == value,
        other != symbol ==> values.insert(symbol.0, value).contains_key(other.0) == values.contains_key(other.0),
        other != symbol && values.contains_key(other.0) ==> values.insert(symbol.0, value)[other.0] == values[other.0],
{
}

/// Identifies a function value: its index in the [`FunctionStore`].
#[derive(Debug, Clone, Copy, PartialEq, Eq, Structural, Hash)]
pub struct FunctionId(pub u32);

impl FunctionId {
    /// The index of the function in its store.
    pub fn index(self) -> (index: u32)
        ensures
            index == self.0,
    {
        self.0
    }
}

/// The functions created while compiling, each at the index of its identity.
#[derive(Debug)]
pub struct FunctionStore {
    functions: Vec<ComptimeFunction>,
}

impl FunctionStore {
    /// The functions, in the order they were created.
    pub closed spec fn view_functions(&self) -> Seq<ComptimeFunction> {
        self.functions@
    }

    /// A store with no functions.
    pub fn new() -> (store: FunctionStore)
        ensures
            store.view_functions().len() == 0,
    {
        FunctionStore { functions: Vec::new() }
    }

    /// Adds a function at the end; its identity is its index.
    pub fn insert(&mut self, function: ComptimeFunction) -> (id: FunctionId)
        requires
            old(self).view_functions().len() < u32::MAX,
        ensures
            final(self).view_functions() == old(self).view_functions().push(function),
            id.0 == old(self).view_functions().len(),
    {
        let id = FunctionId(self.functions.len() as u32);
        self.functions.push(function);
        id
    }

    /// The number of functions.
    pub fn len(&self) -> (len: usize)
        ensures
            len == self.view_functions().len(),
    {
        self.functions.len()
    }

    /// The function with the given identity, if there is one.
    pub fn get(&self, id: FunctionId) -> (function: Option<&ComptimeFunction>)
        ensures
            match function {
                Some(f) => id.0 < self.view_functions().len() && *f == self.view_functions()[id.0 as int],
                None => id.0 >= self.view_functions().len(),
            },
    {
        if (id.0 as usize) < self.functions.len() {
            Some(&self.functions[id.0 as usize])
        } else {
            None
        }
    }

    /// Every function with its identity, in the order they were created.
    pub fn iter(&self) -> (entries: Vec<(FunctionId, &ComptimeFunction)>)
        requires
            self.view_functions().len() <= u32::MAX,
        ensures
            entries@.len() == self.view_functions().len(),
            forall|i: int| 0 <= i < entries@.len() ==> {
                &&& (#[trigger] entries@[i]).0 == FunctionId(i as u32)
                &&& *entries@[i].1 == self.view_functions()[i]
            },
    {
        let mut entries: Vec<(FunctionId, &ComptimeFunction)> = Vec::new();
        let mut i: usize = 0;
        while i < self.functions.len()
            invariant
                i <= self.view_functions().len(),
                self.view_functions().len() <= u32::MAX,
                entries@.len() == i,
                forall|k: int| 0 <= k < i ==> {
                    &&& (#[trigger] entries@[k]).0 == FunctionId(k as u32)
                    &&& *entries@[k].1 == self.view_functions()[k]
                },
            decreases self.view_functions().len() - i,
        {
            entries.push((FunctionId(i as u32), &self.functions[i]));
            i += 1;
        }
        entries
    }
}

/// The function templates met while compiling, each at the index of its identity.
#[derive(Debug)]
pub struct FunctionTemplateStore {
    templates: Vec<FunctionTemplate>,
}

impl FunctionTemplateStore {
    /// The templates, in the order they were met.
    pub closed spec fn view_templates(&self) -> Seq<FunctionTemplate> {
        self.templates@
    }

    /// A store with no templates.
    pub fn new() -> (store: FunctionTemplateStore)
        ensures
            store.view_templates().len() == 0,
    {
        FunctionTemplateStore { templates: Vec::new() }
    }

    /// The number of templates.
    pub fn len(&self) -> (len: usize)
        ensures
            len == self.view_templates().len(),
    {
        self.templates.len()
    }

    /// Adds a template at the end; its identity is its index.
    pub fn insert(&mut self, template: FunctionTemplate) -> (id: FunctionTemplateId)
        requires
            old(self).view_templates().len() < u32::MAX,
        ensures
            final(self).view_templates() == old(self).view_templates().push(template),
            id.0 == old(self).view_templates().len(),
    {
        let id = FunctionTemplateId(self.templates.len() as u32);
        self.templates.push(template);
        id
    }

    /// The template with the given identity, if there is one.
    pub fn get(&self, id: FunctionTemplateId) -> (template: Option<&FunctionTemplate>)
        ensures
            match template {
                Some(t) => id.0 < self.view_templates().len() && *t == self.view_templates()[id.0 as int],
                None => id.0 >= self.view_templates().len(),
            },
    {
        if (id.0 as usize) < self.templates.len() {
            Some(&self.templates[id.0 as usize])
        } else {
            None
        }
    }
}

/// Law: a store of functions gives back, under the identity that `insert`
/// returned, the function that was inserted, and keeps every earlier one.
pub proof fn lemma_function_store_read_after_write(functions: Seq<ComptimeFunction>, function: ComptimeFunction, id: int)
    requires
        0 <= id < functions.len(),
    ensures
        functions.push(function)[functions.len() as int] == function,
        functions.push(function)[id] == functions[id],
{
}

/// A function value: its elaborated code and the compile-time values it
/// captured from the specialization that made it.
#[derive(Debug)]
pub struct ComptimeFunction {
    pub hir: Rc<HirFunctionExpression>,
    pub captures: Vec<(SymbolId, ComptimeValue)>,
}

} // verus!
