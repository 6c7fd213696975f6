//! Tests for the type registry: lineage, names, lookup, registration.

use std::collections::{BTreeSet, HashSet};
use gobject::object::Runtime;
use gobject::subclass::ClassStruct;
use gobject::types::Type;

fn three_level_registry() -> (Runtime, Type, Type, Type) {
    let mut rt = Runtime::new();
    let animal = rt
        .register_type("Animal", Type::BaseObject, Vec::new(), ClassStruct::new())
        .expect("register Animal");
    let bird = rt
        .register_type("Bird", animal, Vec::new(), ClassStruct::new())
        .expect("register Bird");
    let stone = rt
        .register_type("Stone", Type::BaseObject, Vec::new(), ClassStruct::new())
        .expect("register Stone");
    (rt, animal, bird, stone)
}

#[test]
fn invalid() {
    let rt = Runtime::new();
    let invalid = Type::Invalid;

    assert_eq!(rt.registry.name(invalid), "<invalid>");
    assert!(rt.registry.is_a(invalid, Type::Invalid));
    assert!(!rt.registry.is_a(invalid, Type::String));
    assert_eq!(rt.registry.parent(invalid), None);
    assert_eq!(rt.registry.children(invalid), vec![]);
    assert!(!invalid.is_valid());
}

#[test]
fn hash() {
    let (rt, animal, _, stone) = three_level_registry();
    let set = rt
        .registry
        .children(Type::BaseObject)
        .into_iter()
        .collect::<HashSet<_>>();
    assert!(set.contains(&animal));
    assert!(set.contains(&stone));
}

#[test]
fn ord() {
    let (rt, animal, _, _) = three_level_registry();
    assert!(Type::BaseObject < animal);
    let set = rt
        .registry
        .children(Type::BaseObject)
        .into_iter()
        .collect::<BTreeSet<_>>();
    assert!(set.contains(&animal));
}

#[test]
fn lineage_is_a() {
    let (rt, animal, bird, stone) = three_level_registry();
    // Reflexive on every type.
    assert!(rt.registry.is_a(bird, bird));
    assert!(rt.registry.is_a(animal, animal));
    // Every ancestor is reached.
    assert!(rt.registry.is_a(bird, animal));
    assert!(rt.registry.is_a(bird, Type::BaseObject));
    assert!(rt.registry.is_a(animal, Type::BaseObject));
    // Unrelated types are not.
    assert!(!rt.registry.is_a(bird, stone));
    assert!(!rt.registry.is_a(stone, bird));
    assert!(!rt.registry.is_a(animal, bird));
}

#[test]
fn interface_conformance() {
    let mut rt = Runtime::new();
    let flies = rt.register_interface("Flies").expect("register interface");
    let animal = rt
        .register_type("Animal", Type::BaseObject, Vec::new(), ClassStruct::new())
        .expect("register Animal");
    let bird = rt
        .register_type("Bird", animal, vec![flies], ClassStruct::new())
        .expect("register Bird");
    assert!(rt.registry.is_a(bird, flies));
    assert!(!rt.registry.is_a(animal, flies));
    // Interfaces chain under the interface root.
    assert_eq!(rt.registry.parent(flies), Some(Type::BaseInterface));
    assert!(rt.registry.is_a(flies, Type::BaseInterface));
    assert_eq!(rt.registry.children(Type::BaseInterface), vec![flies]);
    assert_eq!(rt.registry.children(Type::Invalid), vec![]);
}

#[test]
fn name_and_lookup() {
    let (rt, animal, bird, _) = three_level_registry();
    assert_eq!(rt.registry.name(animal), "Animal");
    assert_eq!(rt.registry.name(Type::Bool), "gboolean");
    assert_eq!(rt.registry.name(Type::String), "gchararray");
    assert_eq!(rt.registry.from_name("Bird"), Some(bird));
    assert_eq!(rt.registry.from_name("gboolean"), Some(Type::Bool));
    assert_eq!(rt.registry.from_name("NoSuchType"), None);
}

#[test]
fn parent_and_children() {
    let (rt, animal, bird, stone) = three_level_registry();
    assert_eq!(rt.registry.parent(bird), Some(animal));
    assert_eq!(rt.registry.parent(animal), Some(Type::BaseObject));
    assert_eq!(rt.registry.parent(Type::BaseObject), None);
    assert_eq!(rt.registry.children(Type::BaseObject), vec![animal, stone]);
    assert_eq!(rt.registry.children(animal), vec![bird]);
}

#[test]
fn registration_collides_loudly() {
    let (mut rt, _, _, _) = three_level_registry();
    let again = rt.register_type("Animal", Type::BaseObject, Vec::new(), ClassStruct::new());
    assert!(again.is_err());
    assert_eq!(
        again.err().unwrap().message(),
        "type name 'Animal' is already registered"
    );
}

#[test]
fn registration_rejects_bad_parent() {
    let mut rt = Runtime::new();
    let r = rt.register_type("Thing", Type::Bool, Vec::new(), ClassStruct::new());
    assert!(r.is_err());
}

#[test]
fn registration_rejects_fundamental_names() {
    let mut rt = Runtime::new();
    // A registered type may not shadow a fundamental name: lookups by name
    // would silently alias two types.
    let r = rt.register_type("gboolean", Type::BaseObject, Vec::new(), ClassStruct::new());
    assert_eq!(
        r.err().unwrap().message(),
        "type name 'gboolean' collides with a fundamental type"
    );
    assert_eq!(rt.registry.from_name("gboolean"), Some(Type::Bool));
    let r = rt.register_interface("GObject");
    assert!(r.is_err());
}

#[test]
fn program_name() {
    let mut rt = Runtime::new();
    assert_eq!(gobject::utils::get_program_name(&rt), None);
    gobject::utils::set_program_name(&mut rt, Some("sample"));
    assert_eq!(gobject::utils::get_program_name(&rt), Some("sample".to_string()));
    gobject::utils::set_program_name(&mut rt, None);
    assert_eq!(gobject::utils::get_program_name(&rt), None);
}

#[test]
fn bool_error() {
    let ok = gobject::error::BoolError::from_bool(true, "should not fail");
    assert!(ok.is_ok());
    let bad = gobject::error::BoolError::from_bool(false, "operation failed");
    assert_eq!(bad.err().unwrap().message(), "operation failed");
}
