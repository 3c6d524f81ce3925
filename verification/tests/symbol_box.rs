use orco::symbol_box::{SymbolBox, SymbolRef, SymbolRefHandler};

#[test]
fn test() {
    let mut symbol_box: SymbolBox<i32, ()> = SymbolBox::new(42);
    symbol_box.object().set(69);
    assert!(symbol_box.object().get() == 69);

    let symbol_ref = symbol_box.new_ref(());
    let value = symbol_box.object().get();
    symbol_box.object().set(value + 1);
    assert!(symbol_box.object().get() == 70);
    assert!(symbol_ref.object().unwrap().get() == 70);
}

#[test]
fn test_safety_drop_ref() {
    let mut symbol_box: SymbolBox<i32, ()> = SymbolBox::new(42);
    assert!(symbol_box.references().len() == 0);
    let symbol_ref = symbol_box.new_ref(());
    assert!(symbol_box.references().len() == 1);
    drop(symbol_ref);
    // pruning is lazy: the next access observes the dropped reference
    assert!(symbol_box.references().len() == 0);
}

#[test]
fn test_safety_drop_box() {
    let mut symbol_box: SymbolBox<i32, ()> = SymbolBox::new(42);
    let symbol_ref = symbol_box.new_ref(());
    assert!(symbol_ref.object().is_some());
    drop(symbol_box);
    // the box is gone: the object degrades to unavailable, never dangling
    assert!(symbol_ref.object().is_none());
    // the handler is untouched by the box's drop
    let () = symbol_ref.handler().get();
}

#[test]
fn unbound_ref_has_no_object() {
    let symbol_ref: SymbolRef<i32, ()> = SymbolRef::unbound(());
    assert!(symbol_ref.object().is_none());
    let () = symbol_ref.handler().get();
}

#[test]
fn references_survive_while_refs_live() {
    let mut symbol_box: SymbolBox<u64, ()> = SymbolBox::new(7);
    let first = symbol_box.new_ref(());
    let second = symbol_box.new_ref(());
    assert!(symbol_box.references().len() == 2);
    drop(first);
    assert!(symbol_box.references().len() == 1);
    drop(second);
    assert!(symbol_box.references().len() == 0);
}

#[test]
fn default_handler_name() {
    assert_eq!(().name(), "<???>");
}

#[test]
fn unbound_ref_can_be_attached_later() {
    // a forward reference: written first, attached once the symbol exists
    let mut symbol_ref: SymbolRef<i32, ()> = SymbolRef::unbound(());
    assert!(symbol_ref.object().is_none());
    let mut symbol_box: SymbolBox<i32, ()> = SymbolBox::new(42);
    symbol_ref.bind(&mut symbol_box);
    assert!(symbol_box.references().len() == 1);
    assert!(symbol_ref.object().unwrap().get() == 42);
    drop(symbol_box);
    assert!(symbol_ref.object().is_none());
}
