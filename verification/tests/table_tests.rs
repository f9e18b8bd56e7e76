use llvm_symtab::error::Error;
use llvm_symtab::format::RegisterFormat;
use llvm_symtab::symbol::Symbol;
use llvm_symtab::table::{SymbolTable, SymbolTableNode};
use llvm_symtab::value::{Constant, LLVMValue, VirtualRegister};

fn local(name: &str, format: RegisterFormat) -> Symbol {
    Symbol::Local {
        name: name.to_string(),
        value: LLVMValue::VirtualRegister(VirtualRegister::new(name.to_string(), format)),
    }
}

fn constant(name: &str, n: i64) -> Symbol {
    Symbol::Local { name: name.to_string(), value: LLVMValue::Constant(Constant::Integer(n)) }
}

fn constant_of(table: &SymbolTable, name: &str) -> Option<i64> {
    match table.get(name) {
        Ok(symbol) => match symbol.value() {
            LLVMValue::Constant(Constant::Integer(n)) => Some(*n),
            _ => panic!("not a constant"),
        },
        Err(Error::SymbolUndefined { name: reported }) => {
            assert_eq!(reported, name);
            None
        }
        Err(other) => panic!("unexpected error: {:?}", other),
    }
}

#[test]
fn new_table_reports_its_capacity() {
    assert_eq!(SymbolTable::new(8).len(), 8);
    assert_eq!(SymbolTable::new(1).len(), 1);
    assert_eq!(SymbolTable::new(0).len(), 0);
}

#[test]
fn len_is_capacity_not_element_count() {
    let mut table = SymbolTable::new(2);
    table.insert(constant("a", 1));
    table.insert(constant("b", 2));
    table.insert(constant("c", 3));
    assert_eq!(table.len(), 2);
    table.remove("a");
    assert_eq!(table.len(), 2);
}

#[test]
fn hash_of_empty_name_is_zero() {
    assert_eq!(SymbolTable::new(8).hash(""), 0);
    assert_eq!(SymbolTable::new(1).hash(""), 0);
}

#[test]
fn hash_has_the_expected_values() {
    let eight = SymbolTable::new(8);
    assert_eq!(eight.hash("a"), 1);
    assert_eq!(eight.hash("b"), 2);
    assert_eq!(eight.hash("c"), 3);
    assert_eq!(eight.hash("i"), 1);
    assert_eq!(eight.hash("x"), 0);
    assert_eq!(eight.hash("y"), 1);
    assert_eq!(eight.hash("ab"), 7);
    assert_eq!(eight.hash("ba"), 5);
    assert_eq!(eight.hash("counter"), 4);
    assert_eq!(SymbolTable::new(16).hash("counter"), 12);
    assert_eq!(SymbolTable::new(101).hash("hello"), 61);
    assert_eq!(SymbolTable::new(7).hash("hello"), 2);
    assert_eq!(SymbolTable::new(1000003).hash("abc"), 451074);
}

#[test]
fn hash_weighs_each_position_differently() {
    let table = SymbolTable::new(8);
    assert_ne!(table.hash("ab"), table.hash("ba"));
}

#[test]
fn hash_goes_by_character_codes() {
    assert_eq!(SymbolTable::new(8).hash("\u{e9}"), 1);
    assert_eq!(SymbolTable::new(1000).hash("\u{e9}"), 233);
    assert_eq!(SymbolTable::new(97).hash("\u{65e5}\u{672c}"), 25);
}

#[test]
fn hash_reduces_the_power_at_every_step() {
    let table = SymbolTable::new(67);
    assert_eq!(table.hash("a"), 30);
    assert_eq!(table.hash("ab"), 30);
    assert_eq!(table.hash("abc"), 30);
}

#[test]
fn hash_with_one_bucket_is_always_zero() {
    let table = SymbolTable::new(1);
    assert_eq!(table.hash("a"), 0);
    assert_eq!(table.hash("zzz"), 0);
}

#[test]
fn hash_is_deterministic_and_in_range() {
    let names = ["", "a", "counter", "a_rather_long_identifier_name", "\u{10ffff}\u{10ffff}", "x1"];
    for capacity in [1usize, 2, 3, 8, 67, 100, 4096] {
        let table = SymbolTable::new(capacity);
        let other = SymbolTable::new(capacity);
        for name in names.iter() {
            let h = table.hash(name);
            assert!(h < capacity);
            assert_eq!(h, table.hash(name));
            assert_eq!(h, other.hash(name));
        }
    }
}

#[test]
fn hash_does_not_depend_on_contents() {
    let mut table = SymbolTable::new(8);
    let before = table.hash("counter");
    table.insert(constant("counter", 1));
    table.insert(constant("a", 2));
    assert_eq!(table.hash("counter"), before);
}

#[test]
fn insert_then_get_returns_the_inserted_value() {
    let mut table = SymbolTable::new(8);
    table.insert(local("counter", RegisterFormat::Integer));
    let symbol = table.get("counter").unwrap();
    assert_eq!(symbol.name(), "counter");
    match symbol.value() {
        LLVMValue::VirtualRegister(register) => {
            assert_eq!(register.id(), "counter");
            assert_eq!(*register.format(), RegisterFormat::Integer);
        }
        other => panic!("unexpected value: {:?}", other),
    }
}

#[test]
fn insert_of_other_names_does_not_disturb_a_binding() {
    let mut table = SymbolTable::new(8);
    table.insert(constant("a", 1));
    table.insert(constant("i", 2));
    table.insert(constant("y", 3));
    table.insert(constant("b", 4));
    assert_eq!(constant_of(&table, "a"), Some(1));
    assert_eq!(constant_of(&table, "i"), Some(2));
    assert_eq!(constant_of(&table, "y"), Some(3));
    assert_eq!(constant_of(&table, "b"), Some(4));
}

#[test]
fn get_of_an_unbound_name_reports_the_name() {
    let table = SymbolTable::new(8);
    match table.get("missing") {
        Err(Error::SymbolUndefined { name }) => assert_eq!(name, "missing"),
        other => panic!("unexpected result: {:?}", other),
    }
}

#[test]
fn get_does_not_take_a_colliding_name_for_a_match() {
    let mut table = SymbolTable::new(8);
    table.insert(constant("a", 1));
    assert_eq!(table.hash("a"), table.hash("i"));
    assert_eq!(constant_of(&table, "i"), None);
}

#[test]
fn later_insert_shadows_and_remove_unshadows() {
    let mut table = SymbolTable::new(8);
    table.insert(constant("x", 1));
    table.insert(constant("x", 2));
    assert_eq!(constant_of(&table, "x"), Some(2));
    table.remove("x");
    assert_eq!(constant_of(&table, "x"), Some(1));
    table.remove("x");
    assert_eq!(constant_of(&table, "x"), None);
}

#[test]
fn remove_strips_one_layer_at_a_time() {
    let mut table = SymbolTable::new(4);
    table.insert(constant("x", 1));
    table.insert(constant("x", 2));
    table.insert(constant("x", 3));
    table.remove("x");
    assert_eq!(constant_of(&table, "x"), Some(2));
    table.remove("x");
    assert_eq!(constant_of(&table, "x"), Some(1));
    table.remove("x");
    assert_eq!(constant_of(&table, "x"), None);
    table.remove("x");
    assert_eq!(constant_of(&table, "x"), None);
}

#[test]
fn remove_of_an_unbound_name_changes_nothing() {
    let mut table = SymbolTable::new(8);
    table.insert(constant("a", 1));
    table.insert(constant("b", 2));
    table.insert(constant("i", 3));
    table.remove("zzz");
    table.remove("y");
    assert_eq!(table.len(), 8);
    assert_eq!(constant_of(&table, "a"), Some(1));
    assert_eq!(constant_of(&table, "b"), Some(2));
    assert_eq!(constant_of(&table, "i"), Some(3));
    assert_eq!(constant_of(&table, "zzz"), None);
    assert_eq!(constant_of(&table, "y"), None);
}

#[test]
fn remove_on_an_empty_table_changes_nothing() {
    let mut table = SymbolTable::new(3);
    table.remove("a");
    assert_eq!(table.len(), 3);
    assert_eq!(constant_of(&table, "a"), None);
}

#[test]
fn remove_of_the_head_keeps_the_rest_of_the_chain() {
    let mut table = SymbolTable::new(1);
    table.insert(constant("a", 1));
    table.insert(constant("b", 2));
    table.insert(constant("c", 3));
    table.remove("c");
    assert_eq!(constant_of(&table, "c"), None);
    assert_eq!(constant_of(&table, "b"), Some(2));
    assert_eq!(constant_of(&table, "a"), Some(1));
}

#[test]
fn remove_of_the_second_node_keeps_the_head() {
    let mut table = SymbolTable::new(1);
    table.insert(constant("a", 1));
    table.insert(constant("b", 2));
    table.insert(constant("c", 3));
    table.remove("b");
    assert_eq!(constant_of(&table, "c"), Some(3));
    assert_eq!(constant_of(&table, "b"), None);
    assert_eq!(constant_of(&table, "a"), Some(1));
}

#[test]
fn remove_finds_a_match_at_any_depth() {
    let mut table = SymbolTable::new(1);
    for (i, name) in ["a", "b", "c", "d", "e", "f"].iter().enumerate() {
        table.insert(constant(name, i as i64));
    }
    table.remove("a");
    assert_eq!(constant_of(&table, "a"), None);
    for (i, name) in ["b", "c", "d", "e", "f"].iter().enumerate() {
        assert_eq!(constant_of(&table, name), Some(i as i64 + 1));
    }
    table.remove("c");
    assert_eq!(constant_of(&table, "c"), None);
    assert_eq!(constant_of(&table, "b"), Some(1));
    assert_eq!(constant_of(&table, "d"), Some(3));
    assert_eq!(constant_of(&table, "e"), Some(4));
    assert_eq!(constant_of(&table, "f"), Some(5));
}

#[test]
fn remove_takes_the_newest_of_two_layers_below_other_names() {
    let mut table = SymbolTable::new(1);
    table.insert(constant("x", 1));
    table.insert(constant("p", 10));
    table.insert(constant("x", 2));
    table.insert(constant("q", 20));
    table.insert(constant("r", 30));
    table.remove("x");
    assert_eq!(constant_of(&table, "x"), Some(1));
    assert_eq!(constant_of(&table, "p"), Some(10));
    assert_eq!(constant_of(&table, "q"), Some(20));
    assert_eq!(constant_of(&table, "r"), Some(30));
}

#[test]
fn remove_in_one_bucket_leaves_other_buckets_alone() {
    let mut table = SymbolTable::new(8);
    table.insert(constant("a", 1));
    table.insert(constant("b", 2));
    table.insert(constant("c", 3));
    table.remove("b");
    assert_eq!(constant_of(&table, "a"), Some(1));
    assert_eq!(constant_of(&table, "b"), None);
    assert_eq!(constant_of(&table, "c"), Some(3));
}

#[test]
fn locals_are_resolved_and_removed_end_to_end() {
    let mut table = SymbolTable::new(8);
    let (a, _) = table.create_local(&"a".to_string(), &RegisterFormat::Integer);
    let (b, _) = table.create_local(&"b".to_string(), &RegisterFormat::Boolean);
    table.insert(a);
    table.insert(b);
    assert_eq!(table.get("a").unwrap().value().format(), RegisterFormat::Integer);
    assert_eq!(table.get("b").unwrap().value().format(), RegisterFormat::Boolean);
    match table.get("c") {
        Err(Error::SymbolUndefined { name }) => assert_eq!(name, "c"),
        other => panic!("unexpected result: {:?}", other),
    }
    table.remove("a");
    match table.get("a") {
        Err(Error::SymbolUndefined { name }) => assert_eq!(name, "a"),
        other => panic!("unexpected result: {:?}", other),
    }
    assert_eq!(table.get("b").unwrap().value().format(), RegisterFormat::Boolean);
}

#[test]
fn get_mut_changes_the_binding_in_place() {
    let mut table = SymbolTable::new(1);
    table.insert(constant("a", 1));
    table.insert(constant("b", 2));
    table.insert(constant("c", 3));
    *table.get_mut("b").unwrap() = constant("b", 20);
    assert_eq!(constant_of(&table, "a"), Some(1));
    assert_eq!(constant_of(&table, "b"), Some(20));
    assert_eq!(constant_of(&table, "c"), Some(3));
    *table.get_mut("a").unwrap() = constant("a", 10);
    *table.get_mut("c").unwrap() = constant("c", 30);
    assert_eq!(constant_of(&table, "a"), Some(10));
    assert_eq!(constant_of(&table, "b"), Some(20));
    assert_eq!(constant_of(&table, "c"), Some(30));
}

#[test]
fn get_mut_reaches_the_newest_layer_only() {
    let mut table = SymbolTable::new(8);
    table.insert(constant("x", 1));
    table.insert(constant("x", 2));
    match table.get_mut("x") {
        Ok(symbol) => {
            assert_eq!(symbol.name(), "x");
            *symbol = constant("x", 5);
        }
        Err(e) => panic!("unexpected error: {:?}", e),
    }
    assert_eq!(constant_of(&table, "x"), Some(5));
    table.remove("x");
    assert_eq!(constant_of(&table, "x"), Some(1));
}

#[test]
fn get_mut_of_an_unbound_name_reports_the_name() {
    let mut table = SymbolTable::new(8);
    table.insert(constant("a", 1));
    match table.get_mut("i") {
        Err(Error::SymbolUndefined { name }) => assert_eq!(name, "i"),
        other => panic!("unexpected result: {:?}", other),
    }
    assert_eq!(constant_of(&table, "a"), Some(1));
}

#[test]
fn get_mut_without_a_change_leaves_the_table_alone() {
    let mut table = SymbolTable::new(2);
    table.insert(constant("a", 1));
    table.insert(constant("b", 2));
    assert!(table.get_mut("a").is_ok());
    assert_eq!(constant_of(&table, "a"), Some(1));
    assert_eq!(constant_of(&table, "b"), Some(2));
}

#[test]
fn create_local_pairs_a_symbol_with_its_storage_slot() {
    let table = SymbolTable::new(8);
    let (symbol, slot) = table.create_local(&"counter".to_string(), &RegisterFormat::Integer);
    assert_eq!(symbol.name(), "counter");
    assert_eq!(symbol.value().format(), RegisterFormat::Integer);
    match symbol.value() {
        LLVMValue::VirtualRegister(register) => assert_eq!(register.id(), "counter"),
        other => panic!("unexpected value: {:?}", other),
    }
    assert_eq!(slot.id(), "counter");
    assert_eq!(
        *slot.format(),
        RegisterFormat::Pointer { pointee: Box::new(RegisterFormat::Integer) }
    );
    assert_eq!(slot.reg_type(), "i64*");
    assert_eq!(symbol.value().val_type(), "i64");
}

#[test]
fn create_local_does_not_touch_the_table() {
    let table = SymbolTable::new(8);
    let _ = table.create_local(&"counter".to_string(), &RegisterFormat::Integer);
    assert!(table.get("counter").is_err());
    let empty = SymbolTable::new(0);
    let (symbol, slot) = empty.create_local(&"p".to_string(), &RegisterFormat::Boolean.to_pointer());
    assert_eq!(symbol.value().val_type(), "i1*");
    assert_eq!(slot.reg_type(), "i1**");
}

#[test]
fn node_holds_a_symbol_and_the_rest_of_its_chain() {
    let last = SymbolTableNode::new(constant("a", 1), None);
    assert_eq!(last.symbol().name(), "a");
    assert!(last.next().is_none());
    let first = SymbolTableNode::new(constant("b", 2), Some(Box::new(last)));
    assert_eq!(first.symbol().name(), "b");
    match first.next() {
        Some(node) => {
            assert_eq!(node.symbol().name(), "a");
            assert!(node.next().is_none());
        }
        None => panic!("the chain lost its tail"),
    }
}

#[test]
fn node_clone_copies_the_whole_chain() {
    let chain = SymbolTableNode::new(
        constant("b", 2),
        Some(Box::new(SymbolTableNode::new(constant("a", 1), None))),
    );
    let copy = chain.clone();
    assert_eq!(copy.symbol().name(), "b");
    let tail = copy.next().as_ref().unwrap();
    assert_eq!(tail.symbol().name(), "a");
    assert!(tail.next().is_none());
}

#[test]
fn symbol_gives_its_name_and_value() {
    let symbol = constant("k", -3);
    assert_eq!(symbol.name(), "k");
    assert_eq!(symbol.value().to_string(), "-3");
    let copy = symbol.clone();
    assert_eq!(copy.name(), "k");
    assert_eq!(copy.value().to_string(), "-3");
}
