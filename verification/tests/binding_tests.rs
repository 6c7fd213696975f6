//! Tests for property bindings.

use gobject::binding::{BindingBuilder, BindingFlags};
use gobject::object::Runtime;
use gobject::params::{ParamFlags, ParamSpec};
use gobject::signals::Transform;
use gobject::subclass::{ClassStruct, Property};
use gobject::types::Type;
use gobject::value::Value;

fn numbered_type(rt: &mut Runtime) -> Type {
    let mut class = ClassStruct::new();
    class.install_property(Property::stored(ParamSpec::int64(
        "a",
        i64::MIN,
        i64::MAX,
        0,
        ParamFlags::readwrite(),
    )));
    class.install_property(Property::stored(ParamSpec::int64(
        "b",
        i64::MIN,
        i64::MAX,
        0,
        ParamFlags::readwrite(),
    )));
    class.install_property(Property::stored(ParamSpec::boolean(
        "on",
        false,
        ParamFlags::readwrite(),
    )));
    rt.register_type("Numbered", Type::BaseObject, Vec::new(), class)
        .expect("register Numbered")
}

#[test]
fn binding_doubles_through_the_notification_path() {
    let mut rt = Runtime::new();
    let t = numbered_type(&mut rt);
    let x = rt.new_object(t, &Vec::new()).expect("construct source");
    let y = rt.new_object(t, &Vec::new()).expect("construct target");
    let binding = BindingBuilder::new(&x, "a", &y, "b")
        .transform_to(Transform::ScaleInt(2))
        .build(&mut rt)
        .expect("establish binding");
    assert_eq!(binding.source, x.id);
    assert_eq!(binding.target, y.id);
    // Writing X.a synchronously propagates: Y.b becomes the doubled value.
    rt.set_property(&x, "a", &Value::I64(5)).expect("set source");
    assert_eq!(rt.get_property(&y, "b").expect("get target").get_i64(), Some(10));
    // The link is live: it keeps following later writes.
    rt.set_property(&x, "a", &Value::I64(-7)).expect("set source again");
    assert_eq!(rt.get_property(&y, "b").expect("get target").get_i64(), Some(-14));
}

#[test]
fn binding_sync_create_synchronizes_immediately() {
    let mut rt = Runtime::new();
    let t = numbered_type(&mut rt);
    let x = rt.new_object(t, &Vec::new()).expect("construct source");
    let y = rt.new_object(t, &Vec::new()).expect("construct target");
    rt.set_property(&x, "a", &Value::I64(21)).expect("preset source");
    BindingBuilder::new(&x, "a", &y, "b")
        .flags(BindingFlags::default_flags().with_sync_create())
        .build(&mut rt)
        .expect("establish binding");
    assert_eq!(rt.get_property(&y, "b").expect("get target").get_i64(), Some(21));
}

#[test]
fn bidirectional_binding_does_not_feed_itself() {
    let mut rt = Runtime::new();
    let t = numbered_type(&mut rt);
    let x = rt.new_object(t, &Vec::new()).expect("construct source");
    let y = rt.new_object(t, &Vec::new()).expect("construct target");
    let binding = BindingBuilder::new(&x, "a", &y, "b")
        .flags(BindingFlags::default_flags().with_bidirectional())
        .build(&mut rt)
        .expect("establish binding");
    assert!(binding.backward.is_some());
    rt.set_property(&x, "a", &Value::I64(3)).expect("forward write");
    assert_eq!(rt.get_property(&y, "b").expect("get").get_i64(), Some(3));
    rt.set_property(&y, "b", &Value::I64(8)).expect("backward write");
    assert_eq!(rt.get_property(&x, "a").expect("get").get_i64(), Some(8));
}

#[test]
fn binding_inverts_booleans() {
    let mut rt = Runtime::new();
    let t = numbered_type(&mut rt);
    let x = rt.new_object(t, &Vec::new()).expect("construct source");
    let y = rt.new_object(t, &Vec::new()).expect("construct target");
    let mut flags = BindingFlags::default_flags();
    flags.invert_boolean = true;
    BindingBuilder::new(&x, "on", &y, "on")
        .flags(flags)
        .build(&mut rt)
        .expect("establish binding");
    rt.set_property(&x, "on", &Value::Bool(true)).expect("set");
    assert_eq!(rt.get_property(&y, "on").expect("get").get_bool(), Some(false));
}

#[test]
fn binding_requires_suitable_properties() {
    let mut rt = Runtime::new();
    let t = numbered_type(&mut rt);
    let x = rt.new_object(t, &Vec::new()).expect("construct source");
    let y = rt.new_object(t, &Vec::new()).expect("construct target");
    assert!(BindingBuilder::new(&x, "missing", &y, "b").build(&mut rt).is_none());
    assert!(BindingBuilder::new(&x, "a", &y, "missing").build(&mut rt).is_none());
}

#[test]
fn binding_drops_values_the_transform_rejects() {
    let mut rt = Runtime::new();
    let t = numbered_type(&mut rt);
    let x = rt.new_object(t, &Vec::new()).expect("construct source");
    let y = rt.new_object(t, &Vec::new()).expect("construct target");
    BindingBuilder::new(&x, "a", &y, "b")
        .transform_to(Transform::ScaleInt(2))
        .build(&mut rt)
        .expect("establish binding");
    // Doubling the maximum does not fit: nothing is written to the target.
    rt.set_property(&x, "a", &Value::I64(i64::MAX)).expect("set source");
    assert_eq!(rt.get_property(&y, "b").expect("get target").get_i64(), Some(0));
}

#[test]
fn unbinding_stops_the_link() {
    let mut rt = Runtime::new();
    let t = numbered_type(&mut rt);
    let x = rt.new_object(t, &Vec::new()).expect("construct source");
    let y = rt.new_object(t, &Vec::new()).expect("construct target");
    let binding = BindingBuilder::new(&x, "a", &y, "b")
        .build(&mut rt)
        .expect("establish binding");
    rt.set_property(&x, "a", &Value::I64(4)).expect("set while bound");
    assert_eq!(rt.get_property(&y, "b").expect("get").get_i64(), Some(4));
    binding.unbind(&mut rt).expect("unbind");
    rt.set_property(&x, "a", &Value::I64(5)).expect("set after unbind");
    assert_eq!(rt.get_property(&y, "b").expect("get").get_i64(), Some(4));
    // Undoing the binding twice is an error.
    assert!(binding.unbind(&mut rt).is_err());
}
