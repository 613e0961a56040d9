use flang::comptime::{ComptimeFunction, ComptimeValue, FunctionStore, ValueStore};
use flang::hir::{HirBlock, HirFunctionExpression};
use flang::source::{SourceId, Span};
use flang::symbols::{Environment, Symbol, SymbolId, SymbolKind, SymbolTable};
use flang::types::{IntegerType, Type};
use std::rc::Rc;

#[test]
fn lookup_after_define_finds_the_symbol() {
    let mut environment = Environment::new();
    environment.define("x".to_owned(), SymbolId(3));
    assert_eq!(environment.lookup("x"), Some(SymbolId(3)));
    assert_eq!(environment.lookup_current("x"), Some(SymbolId(3)));
    environment.define("x".to_owned(), SymbolId(4));
    assert_eq!(environment.lookup("x"), Some(SymbolId(4)));
}

#[test]
fn defining_one_name_keeps_the_others() {
    let mut environment = Environment::new();
    environment.define("x".to_owned(), SymbolId(1));
    environment.define("y".to_owned(), SymbolId(2));
    assert_eq!(environment.lookup("x"), Some(SymbolId(1)));
    assert_eq!(environment.lookup("z"), None);
}

#[test]
fn a_fresh_scope_sees_its_parent() {
    let mut environment = Environment::new();
    environment.define("outer".to_owned(), SymbolId(1));
    environment.push_scope();
    assert_eq!(environment.lookup("outer"), Some(SymbolId(1)));
    assert_eq!(environment.lookup_current("outer"), None);
}

#[test]
fn popping_a_scope_undoes_pushing_it() {
    let mut environment = Environment::new();
    environment.define("x".to_owned(), SymbolId(1));
    let root = environment.current_scope();
    environment.push_scope();
    environment.define("x".to_owned(), SymbolId(2));
    environment.define("inner".to_owned(), SymbolId(3));
    assert_eq!(environment.lookup("x"), Some(SymbolId(2)));
    let inner = environment.current_scope();
    environment.pop_scope();
    assert_eq!(environment.current_scope(), root);
    assert_eq!(environment.lookup("x"), Some(SymbolId(1)));
    assert_eq!(environment.lookup("inner"), None);
    assert_eq!(environment.lookup_in(inner, "inner"), Some(SymbolId(3)));
    assert_eq!(environment.lookup_from(inner, "x"), Some(SymbolId(2)));
}

#[test]
fn switching_scopes_hands_back_the_previous_one() {
    let mut environment = Environment::new();
    let root = environment.current_scope();
    environment.push_scope();
    let child = environment.current_scope();
    let previous = environment.switch_scope(root);
    assert_eq!(previous, child);
    assert_eq!(environment.current_scope(), root);
    assert_eq!(environment.scope_count(), 2);
}

#[test]
fn symbol_table_gives_back_what_was_inserted() {
    let mut table = SymbolTable::new();
    let first = table.insert(Symbol {
        name: "first".to_owned(),
        declaration_span: None,
        kind: SymbolKind::Parameter,
        type_: Type::Bool,
    });
    let second = table.insert(Symbol {
        name: "second".to_owned(),
        declaration_span: Some(Span { source: SourceId(0), start: 1, end: 2 }),
        kind: SymbolKind::Local { mutable: true },
        type_: Type::Integer(IntegerType::I8),
    });
    assert_eq!(first, SymbolId(0));
    assert_eq!(second, SymbolId(1));
    assert_eq!(table.get(second).name, "second");
    table.get_mut(first).name = "renamed".to_owned();
    assert_eq!(table.get(first).name, "renamed");
    let (found, symbol) = table.find_by_name("second").expect("second should be found");
    assert_eq!(found, second);
    assert_eq!(symbol.name, "second");
    assert!(table.find_by_name("missing").is_none());
}

#[test]
fn value_store_reads_what_was_written() {
    let mut values = ValueStore::new();
    assert!(values.get(SymbolId(1)).is_none());
    values.insert(SymbolId(1), ComptimeValue::Bool(true));
    values.insert(SymbolId(2), ComptimeValue::Integer { value: 7, type_: IntegerType::U8 });
    assert!(matches!(values.get(SymbolId(1)), Some(ComptimeValue::Bool(true))));
    values.insert(SymbolId(1), ComptimeValue::Unit);
    assert!(matches!(values.get(SymbolId(1)), Some(ComptimeValue::Unit)));
    assert!(matches!(values.get(SymbolId(2)), Some(ComptimeValue::Integer { value: 7, .. })));
}

#[test]
fn function_store_gives_back_what_was_inserted() {
    let mut functions = FunctionStore::new();
    let body = HirBlock { statements: Vec::new(), span: Span { source: SourceId(0), start: 0, end: 0 } };
    let hir = Rc::new(HirFunctionExpression { parameters: Vec::new(), return_type: Type::Unit, body });
    let first = functions.insert(ComptimeFunction { hir: Rc::clone(&hir), captures: Vec::new() });
    let second = functions.insert(ComptimeFunction { hir, captures: vec![(SymbolId(9), ComptimeValue::Bool(false))] });
    assert_eq!(first.index(), 0);
    assert_eq!(second.index(), 1);
    assert_eq!(functions.get(second).expect("second").captures.len(), 1);
    assert!(functions.get(flang::comptime::FunctionId(2)).is_none());
    let entries = functions.iter();
    assert_eq!(entries.len(), 2);
    assert_eq!(entries[1].0, second);
    assert_eq!(functions.len(), 2);
}

