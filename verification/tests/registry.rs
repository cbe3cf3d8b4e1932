use content_vtable::hooks::{Args, Diagnostic, NativeElement};
use content_vtable::raw::{Element, RawContent};
use content_vtable::registry::Registry;
use content_vtable::styles::Style;
use content_vtable::value::Value;
use content_vtable::vtable::{ContentVtable, FieldVtable, Roles};

struct Plain;

impl NativeElement for Plain {
    fn construct(&self, _args: &mut Args) -> Result<RawContent, Diagnostic> {
        Err(Diagnostic::Rejected(String::from("no constructor")))
    }

    fn set(&self, _args: &mut Args) -> Result<Vec<Style>, Diagnostic> {
        Ok(Vec::new())
    }
}

fn kind(elem: u32, name: &'static str) -> ContentVtable {
    let roles = Roles {
        positional: true,
        variadic: false,
        required: true,
        settable: false,
        synthesized: false,
    };
    ContentVtable::new(
        Plain,
        Element(elem),
        name,
        name,
        "",
        vec![FieldVtable::new("body", "", roles, false, "any", None)],
        Vec::new(),
    )
    .erase()
}

fn record(elem: u32) -> RawContent {
    RawContent::new(Element(elem), vec![Some(Value::Int(1))])
}

#[test]
fn new_registry_is_empty() {
    let registry = Registry::new();
    assert_eq!(registry.len(), 0);
    assert!(registry.get(Element(0)).is_none());
    assert!(registry.handle(&record(0)).is_none());
}

#[test]
fn register_adds_a_kind() {
    let mut registry = Registry::new();
    assert!(registry.register(kind(1, "text")).is_ok());
    assert!(registry.register(kind(2, "space")).is_ok());
    assert_eq!(registry.len(), 2);
    assert_eq!(registry.get(Element(1)).unwrap().name(), "text");
    assert_eq!(registry.get(Element(2)).unwrap().name(), "space");
    assert!(registry.get(Element(3)).is_none());
}

#[test]
fn register_hands_back_a_table_whose_identity_is_taken() {
    let mut registry = Registry::new();
    assert!(registry.register(kind(1, "text")).is_ok());
    let back = registry.register(kind(1, "other")).err().unwrap();
    assert_eq!(back.name(), "other");
    assert_eq!(back.elem(), Element(1));
    assert_eq!(registry.len(), 1);
    assert_eq!(registry.get(Element(1)).unwrap().name(), "text");
}

#[test]
fn registered_kinds_are_told_apart_by_identity() {
    let mut registry = Registry::new();
    for elem in 0..20 {
        assert!(registry.register(kind(elem, "kind")).is_ok());
    }
    for elem in 0..20 {
        assert!(registry.register(kind(elem, "again")).is_err());
    }
    assert_eq!(registry.len(), 20);
    for a in 0..20 {
        let of_a = record(a);
        for b in 0..20 {
            let table = registry.get(Element(b)).unwrap();
            assert_eq!(table.elem() == Element(a), a == b);
            assert_eq!(of_a.is(table.elem()), a == b);
            assert_eq!(table.matches(&of_a), a == b);
        }
    }
}

#[test]
fn handle_pairs_a_record_with_the_table_of_its_kind() {
    let mut registry = Registry::new();
    assert!(registry.register(kind(1, "text")).is_ok());
    assert!(registry.register(kind(2, "space")).is_ok());
    let space = record(2);
    let handle = registry.handle(&space).unwrap();
    assert_eq!(handle.table().name(), "space");
    assert_eq!(handle.debug(), "space { body: 1 }");
    assert!(registry.handle(&record(3)).is_none());
    let malformed = RawContent::new(Element(2), vec![None]);
    assert!(registry.handle(&malformed).is_none());
}

#[test]
fn record_knows_its_kind() {
    let text = record(1);
    assert_eq!(text.elem(), Element(1));
    assert!(text.is(Element(1)));
    assert!(!text.is(Element(2)));
    assert!(text.is_live());
    assert_eq!(text.len(), 1);
    let copy = text.clone();
    assert!(copy.is(Element(1)));
    assert_eq!(copy.slot(0), &Some(Value::Int(1)));
}
