//! Tests for handles: reference counting, destruction, weak references,
//! casts, and the floating-reference protocol.

use gobject::object::{Runtime, WeakRef};
use gobject::subclass::ClassStruct;
use gobject::types::Type;

fn runtime_with_pair() -> (Runtime, Type, Type) {
    let mut rt = Runtime::new();
    let animal = rt
        .register_type("Animal", Type::BaseObject, Vec::new(), ClassStruct::new())
        .expect("register Animal");
    let bird = rt
        .register_type("Bird", animal, Vec::new(), ClassStruct::new())
        .expect("register Bird");
    (rt, animal, bird)
}

#[test]
fn clone_and_drop_destroys_once() {
    let (mut rt, animal, _) = runtime_with_pair();
    let obj = rt.new_object(animal, &Vec::new()).expect("construct");
    let id = obj.id;
    assert_eq!(rt.ref_count(&obj), 1);
    // Clone the handle three times, then drop all four: the instance stays
    // alive until the very last drop.
    let c1 = rt.clone_object(&obj);
    let c2 = rt.clone_object(&obj);
    let c3 = rt.clone_object(&obj);
    assert_eq!(rt.ref_count(&obj), 4);
    rt.drop_object(c1);
    assert!(rt.is_alive(id));
    rt.drop_object(c2);
    assert!(rt.is_alive(id));
    rt.drop_object(c3);
    assert!(rt.is_alive(id));
    assert_eq!(rt.ref_count(&obj), 1);
    rt.drop_object(obj);
    assert!(!rt.is_alive(id));
    // Destroyed means destroyed: the slot records no references and a
    // revived instance would be a bug.
    assert!(!rt.instances[id].alive);
    assert_eq!(rt.instances[id].ref_count, 0);
}

#[test]
fn acquisition_modes() {
    let (mut rt, animal, _) = runtime_with_pair();
    let obj = rt.new_object(animal, &Vec::new()).expect("construct");
    let id = obj.id;
    // Borrowing takes a reference of its own.
    let borrowed = rt.from_borrowed(id);
    assert_eq!(rt.ref_count(&obj), 2);
    // Taking over an owned reference leaves the count alone.
    let owned = rt.from_owned(id);
    assert_eq!(rt.ref_count(&obj), 2);
    rt.drop_object(borrowed);
    rt.drop_object(owned);
    assert!(!rt.is_alive(id));
    let _ = obj;
}

#[test]
fn floating_sink() {
    let mut rt = Runtime::new();
    let mut class = ClassStruct::new();
    class.initially_unowned = true;
    let t = rt
        .register_type("Floater", Type::BaseObject, Vec::new(), class)
        .expect("register");
    let obj = rt.new_object(t, &Vec::new()).expect("construct");
    assert!(rt.instances[obj.id].floating);
    // The first sink consumes the floating reference without counting.
    let sunk = rt.from_floating(obj.id);
    assert!(!rt.instances[obj.id].floating);
    assert_eq!(rt.ref_count(&obj), 1);
    // A second sink behaves like an ordinary borrow.
    let again = rt.from_floating(obj.id);
    assert_eq!(rt.ref_count(&obj), 2);
    rt.drop_object(again);
    rt.drop_object(sunk);
    let _ = obj;
}

#[test]
fn weak_reference_upgrade() {
    let (mut rt, animal, _) = runtime_with_pair();
    let obj = rt.new_object(animal, &Vec::new()).expect("construct");
    let id = obj.id;
    let weak = rt.downgrade(&obj);
    // While the instance lives, upgrading yields a handle to the same
    // instance and takes a reference.
    let strong = rt.upgrade(&weak).expect("upgrade while alive");
    assert!(strong == obj);
    assert_eq!(rt.ref_count(&obj), 2);
    rt.drop_object(strong);
    rt.drop_object(obj);
    // Once every strong handle is gone, upgrading yields nothing.
    assert!(!rt.is_alive(id));
    assert!(rt.upgrade(&weak).is_none());
    // An empty weak reference never upgrades.
    let empty = WeakRef::new();
    assert!(rt.upgrade(&empty).is_none());
}

#[test]
fn cast_round_trip() {
    let (mut rt, animal, bird) = runtime_with_pair();
    let obj = rt.new_object(bird, &Vec::new()).expect("construct");
    assert!(rt.object_is(&obj, animal));
    // Upcast always succeeds and keeps the identity.
    let as_animal = rt.upcast(obj, animal);
    assert_eq!(as_animal.ty, animal);
    // Downcast back to the original type succeeds and the handle is equal
    // (by identity) to what the upcast saw.
    let back = rt.downcast(as_animal, bird).expect("downcast to runtime type");
    assert_eq!(back.ty, bird);
    rt.drop_object(back);
}

#[test]
fn downcast_unrelated_fails_unchanged() {
    let (mut rt, animal, bird) = runtime_with_pair();
    let stone = rt
        .register_type("Stone", Type::BaseObject, Vec::new(), ClassStruct::new())
        .expect("register Stone");
    let obj = rt.new_object(animal, &Vec::new()).expect("construct");
    // The instance is an Animal, not a Bird: narrowing fails and the
    // original handle comes back unchanged.
    let kept = match rt.downcast(obj, bird) {
        Ok(_) => panic!("an Animal instance must not narrow to Bird"),
        Err(orig) => orig,
    };
    assert_eq!(kept.ty, animal);
    // A dynamic cast toward an unrelated type fails the same way.
    let kept2 = match rt.dynamic_cast(kept, stone) {
        Ok(_) => panic!("an Animal instance must not cast to Stone"),
        Err(orig) => orig,
    };
    assert_eq!(kept2.ty, animal);
    rt.drop_object(kept2);
}

#[test]
fn dynamic_cast_to_interface() {
    let mut rt = Runtime::new();
    let flies = rt.register_interface("Flies").expect("register interface");
    let animal = rt
        .register_type("Animal", Type::BaseObject, Vec::new(), ClassStruct::new())
        .expect("register Animal");
    let bird = rt
        .register_type("Bird", animal, vec![flies], ClassStruct::new())
        .expect("register Bird");
    let obj = rt.new_object(bird, &Vec::new()).expect("construct");
    let viewed = rt.upcast(obj, animal);
    // The static view type declares no relation to the interface; the
    // runtime type decides.
    let as_flies = rt.dynamic_cast(viewed, flies).expect("cast to interface");
    assert_eq!(as_flies.ty, flies);
    rt.drop_object(as_flies);
}

#[test]
fn construction_rejects_non_object_types() {
    let mut rt = Runtime::new();
    let flies = rt.register_interface("Flies").expect("register interface");
    assert!(rt.new_object(Type::Bool, &Vec::new()).is_err());
    let r = rt.new_object(flies, &Vec::new());
    assert_eq!(r.err().unwrap().message(), "can't instantiate type 'Flies'");
}
