//! The table of interned names.

use vhdl_semantic::latin_1::Latin1String;
use vhdl_semantic::symbol_table::SymbolTable;

fn text(name: &str) -> Latin1String {
    Latin1String::new(name.as_bytes())
}

#[test]
fn a_name_is_interned_once() {
    let mut symtab = SymbolTable::new();
    let first = symtab.insert(&text("clk"));
    let other = symtab.insert(&text("rst"));
    let again = symtab.insert(&text("clk"));
    assert_eq!(first.id(), 0);
    assert_eq!(other.id(), 1);
    assert_eq!(again.id(), 0);
    assert!(first.same_name(&again));
    assert!(!first.same_name(&other));
    assert_eq!(symtab.insert(&text("en")).id(), 2);
}

#[test]
fn symbol_keeps_its_text() {
    let mut symtab = SymbolTable::new();
    let sym = symtab.insert(&text("data_in"));
    assert_eq!(sym.name().to_string(), "data_in");
    let copy = sym.clone();
    assert_eq!(copy.id(), sym.id());
    assert!(copy.same_name(&sym));
}

#[test]
fn lookup_finds_only_interned_names() {
    let mut symtab = SymbolTable::new();
    assert!(symtab.lookup(&text("a")).is_none());
    symtab.insert(&text("a"));
    symtab.insert(&text("b"));
    let found = symtab.lookup(&text("b")).expect("the name was interned");
    assert_eq!(found.id(), 1);
    assert_eq!(found.name().to_string(), "b");
    assert!(symtab.lookup(&text("c")).is_none());
    assert!(symtab.lookup(&text("")).is_none());
}

#[test]
fn symbols_of_different_tables_compare_by_text() {
    let mut one = SymbolTable::new();
    let mut two = SymbolTable::new();
    one.insert(&text("x"));
    let a = one.insert(&text("y"));
    let b = two.insert(&text("y"));
    assert_ne!(a.id(), b.id());
    assert!(a.same_name(&b));
}
