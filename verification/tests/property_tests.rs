//! Tests for the property pipeline: get/set, flags, validation, defaults,
//! construct-time parameters and the constructed mark.

use gobject::object::Runtime;
use gobject::params::{ParamFlags, ParamSpec};
use gobject::subclass::{ClassStruct, Property, PropertySetHook};
use gobject::types::Type;
use gobject::value::Value;

fn sample_type(rt: &mut Runtime) -> (Type, Type) {
    let child = rt
        .register_type("ChildObject", Type::BaseObject, Vec::new(), ClassStruct::new())
        .expect("register ChildObject");
    let mut class = ClassStruct::new();
    class.install_properties(vec![
        Property::stored(ParamSpec::string("name", ParamFlags::readwrite())),
        Property::stored(ParamSpec::string(
            "construct-name",
            ParamFlags::readwrite().with_construct_only(),
        )),
        Property::stored(ParamSpec::boolean("constructed", false, ParamFlags::readonly())),
        Property::stored(ParamSpec::object("child", child, ParamFlags::readwrite())),
        Property::stored(ParamSpec::boolean("flag", false, ParamFlags::readwrite())),
        Property::stored(ParamSpec::int32("count", 0, 100, 10, ParamFlags::readwrite())),
        Property::stored(ParamSpec::int32(
            "level",
            0,
            100,
            10,
            ParamFlags::readwrite().with_lax_validation(),
        )),
    ]);
    class.mark_constructed = Some("constructed".to_string());
    let simple = rt
        .register_type("SimpleObject", Type::BaseObject, Vec::new(), class)
        .expect("register SimpleObject");
    (simple, child)
}

#[test]
fn set_then_get_returns_the_value() {
    let mut rt = Runtime::new();
    let (simple, child) = sample_type(&mut rt);
    let obj = rt.new_object(simple, &Vec::new()).expect("construct");

    // A string property.
    let sval = Value::Str(Some("hello".to_string()));
    rt.set_property(&obj, "name", &sval).expect("set string");
    assert_eq!(
        rt.get_property(&obj, "name").expect("get string").get_str(),
        Some("hello".to_string())
    );

    // A boolean property.
    rt.set_property(&obj, "flag", &Value::Bool(true)).expect("set bool");
    assert_eq!(
        rt.get_property(&obj, "flag").expect("get bool").get_bool(),
        Some(true)
    );

    // An object-typed property with a value of exactly the declared type.
    let c = rt.new_object(child, &Vec::new()).expect("construct child");
    let cval = rt.object_value(&c);
    rt.set_property(&obj, "child", &cval).expect("set object");
    assert_eq!(
        rt.get_property(&obj, "child").expect("get object").get_object(),
        Some(c.id)
    );
    rt.drop_object(c);
}

#[test]
fn set_accepts_subtype_values() {
    let mut rt = Runtime::new();
    let (simple, child) = sample_type(&mut rt);
    let grandchild = rt
        .register_type("GrandChild", child, Vec::new(), ClassStruct::new())
        .expect("register GrandChild");
    let obj = rt.new_object(simple, &Vec::new()).expect("construct");
    let g = rt.new_object(grandchild, &Vec::new()).expect("construct grandchild");
    // The property is declared at the parent type; a subtype instance is
    // accepted and read back unchanged.
    let gval = rt.object_value(&g);
    rt.set_property(&obj, "child", &gval).expect("set subtype value");
    assert_eq!(
        rt.get_property(&obj, "child").expect("get").get_object(),
        Some(g.id)
    );
    rt.drop_object(g);
}

#[test]
fn property_errors_are_exact() {
    let mut rt = Runtime::new();
    let (simple, _) = sample_type(&mut rt);
    let obj = rt.new_object(simple, &Vec::new()).expect("construct");

    // A construct-only property rejects writes after construction.
    let e = rt
        .set_property(&obj, "construct-name", &Value::Str(Some("late".to_string())))
        .err()
        .expect("construct-only must reject");
    assert_eq!(
        e.message(),
        "property 'construct-name' of type 'SimpleObject' is not writable"
    );

    // An unknown property name.
    let e = rt
        .set_property(&obj, "test", &Value::Bool(true))
        .err()
        .expect("unknown name must reject");
    assert_eq!(e.message(), "property 'test' of type 'SimpleObject' not found");

    // A read-only property rejects writes.
    let e = rt
        .set_property(&obj, "constructed", &Value::Bool(false))
        .err()
        .expect("read-only must reject");
    assert_eq!(
        e.message(),
        "property 'constructed' of type 'SimpleObject' is not writable"
    );

    // A value of an incompatible type.
    let e = rt
        .set_property(&obj, "name", &Value::Bool(false))
        .err()
        .expect("wrong type must reject");
    assert_eq!(
        e.message(),
        "property 'name' of type 'SimpleObject' can't be set from the given type \
         (expected: 'gchararray', got: 'gboolean')"
    );

    // Reading an unknown property.
    let e = rt.get_property(&obj, "test").err().expect("unknown get");
    assert_eq!(e.message(), "property 'test' of type 'SimpleObject' not found");
}

#[test]
fn range_validation_rejects_or_clamps() {
    let mut rt = Runtime::new();
    let (simple, _) = sample_type(&mut rt);
    let obj = rt.new_object(simple, &Vec::new()).expect("construct");

    // Out of range without lax validation: rejected, nothing stored.
    let e = rt
        .set_property(&obj, "count", &Value::I32(1000))
        .err()
        .expect("out of range must reject");
    assert_eq!(
        e.message(),
        "property 'count' of type 'SimpleObject' can't be set from the given value, \
         it is invalid or out of range"
    );
    assert_eq!(
        rt.get_property(&obj, "count").expect("get").get_i32(),
        Some(10)
    );

    // In range: stored as given.
    rt.set_property(&obj, "count", &Value::I32(55)).expect("in range");
    assert_eq!(rt.get_property(&obj, "count").expect("get").get_i32(), Some(55));

    // Out of range with lax validation: clamped to the nearest bound.
    rt.set_property(&obj, "level", &Value::I32(1000)).expect("lax clamps");
    assert_eq!(rt.get_property(&obj, "level").expect("get").get_i32(), Some(100));
    rt.set_property(&obj, "level", &Value::I32(-5)).expect("lax clamps low");
    assert_eq!(rt.get_property(&obj, "level").expect("get").get_i32(), Some(0));
}

#[test]
fn defaults_and_construct_parameters() {
    let mut rt = Runtime::new();
    let (simple, _) = sample_type(&mut rt);

    // Defaults apply when construction names no parameters.
    let plain = rt.new_object(simple, &Vec::new()).expect("construct");
    assert_eq!(rt.get_property(&plain, "name").expect("get").get_str(), None);
    assert_eq!(rt.get_property(&plain, "count").expect("get").get_i32(), Some(10));

    // Construct-time parameters may set construct-only properties.
    let params = vec![
        ("construct-name".to_string(), Value::Str(Some("meh".to_string()))),
        ("name".to_string(), Value::Str(Some("initial".to_string()))),
    ];
    let obj = rt.new_object(simple, &params).expect("construct with parameters");
    assert_eq!(
        rt.get_property(&obj, "construct-name").expect("get").get_str(),
        Some("meh".to_string())
    );
    assert_eq!(
        rt.get_property(&obj, "name").expect("get").get_str(),
        Some("initial".to_string())
    );

    // The constructed mark was applied once construction finished.
    assert_eq!(
        rt.get_property(&obj, "constructed").expect("get").get_bool(),
        Some(true)
    );

    // A bad parameter rejects the whole construction.
    let bad = vec![("nope".to_string(), Value::Bool(true))];
    let e = rt.new_object(simple, &bad).err().expect("bad parameter");
    assert_eq!(e.message(), "property 'nope' of type 'SimpleObject' not found");
}

#[test]
fn properties_are_inherited() {
    let mut rt = Runtime::new();
    let (simple, _) = sample_type(&mut rt);
    let sub = rt
        .register_type("SimpleSubObject", simple, Vec::new(), ClassStruct::new())
        .expect("register subtype");
    let obj = rt.new_object(sub, &Vec::new()).expect("construct");
    rt.set_property(&obj, "name", &Value::Str(Some("inherited".to_string())))
        .expect("set inherited property");
    assert_eq!(
        rt.get_property(&obj, "name").expect("get").get_str(),
        Some("inherited".to_string())
    );
}

#[test]
fn ignored_setter_accepts_but_keeps_nothing() {
    let mut rt = Runtime::new();
    let mut class = ClassStruct::new();
    class.install_property(Property {
        spec: ParamSpec::string("sink", ParamFlags::readwrite()),
        setter: PropertySetHook::Ignore,
    });
    let t = rt
        .register_type("Sinkhole", Type::BaseObject, Vec::new(), class)
        .expect("register");
    let obj = rt.new_object(t, &Vec::new()).expect("construct");
    rt.set_property(&obj, "sink", &Value::Str(Some("gone".to_string())))
        .expect("write accepted");
    assert_eq!(rt.get_property(&obj, "sink").expect("get").get_str(), None);
}

#[test]
fn test_create() {
    let mut rt = Runtime::new();
    let (simple, _) = sample_type(&mut rt);
    let obj = rt.new_object(simple, &Vec::new()).expect("Object::new failed");

    assert_eq!(
        rt.get_property(&obj, "constructed")
            .expect("Failed to get 'constructed' property")
            .get_bool()
            .expect("Failed to get bool from 'constructed' property"),
        true
    );

    let weak = rt.downgrade(&obj);
    rt.drop_object(obj);
    assert!(rt.upgrade(&weak).is_none());
}

#[test]
fn test_set_properties() {
    let mut rt = Runtime::new();
    let (simple, child) = sample_type(&mut rt);
    let params = vec![
        ("construct-name".to_string(), Value::Str(Some("meh".to_string()))),
        ("name".to_string(), Value::Str(Some("initial".to_string()))),
    ];
    let obj = rt.new_object(simple, &params).expect("Object::new failed");

    assert_eq!(
        rt.get_property(&obj, "construct-name")
            .expect("Failed to get 'construct-name' property")
            .get_str()
            .expect("Failed to get str from 'construct-name' property"),
        "meh"
    );
    assert_eq!(
        rt.set_property(&obj, "construct-name", &Value::Str(Some("test".to_string())))
            .err()
            .expect("Failed to set 'construct-name' property")
            .message(),
        "property 'construct-name' of type 'SimpleObject' is not writable",
    );
    assert_eq!(
        rt.get_property(&obj, "construct-name")
            .expect("Failed to get 'construct-name' property")
            .get_str()
            .expect("Failed to get str from 'construct-name' property"),
        "meh"
    );

    assert_eq!(
        rt.get_property(&obj, "name")
            .expect("Failed to get 'name' property")
            .get_str()
            .expect("Failed to get str from 'name' property"),
        "initial"
    );
    assert!(rt.set_property(&obj, "name", &Value::Str(Some("test".to_string()))).is_ok());
    assert_eq!(
        rt.get_property(&obj, "name")
            .expect("Failed to get 'name' property")
            .get_str()
            .expect("Failed to get str from 'name' property"),
        "test"
    );

    assert_eq!(
        rt.set_property(&obj, "test", &Value::Bool(true))
            .err()
            .expect("set_property failed")
            .message(),
        "property 'test' of type 'SimpleObject' not found",
    );

    assert_eq!(
        rt.set_property(&obj, "constructed", &Value::Bool(false))
            .err()
            .expect("Failed to set 'constructed' property")
            .message(),
        "property 'constructed' of type 'SimpleObject' is not writable",
    );

    assert_eq!(
        rt.set_property(&obj, "name", &Value::Bool(false))
            .err()
            .expect("Failed to set 'name' property")
            .message(),
        "property 'name' of type 'SimpleObject' can't be set from the given type \
         (expected: 'gchararray', got: 'gboolean')",
    );

    // An instance of an unrelated object type does not fit an object-typed
    // property; the diagnostic names both types.
    let other_obj = rt.new_object(simple, &Vec::new()).expect("Object::new failed");
    let oval = rt.object_value(&other_obj);
    assert_eq!(
        rt.set_property(&obj, "child", &oval)
            .err()
            .expect("Failed to set 'child' property")
            .message(),
        "property 'child' of type 'SimpleObject' can't be set from the given type \
         (expected: 'ChildObject', got: 'SimpleObject')",
    );

    let c = rt.new_object(child, &Vec::new()).expect("Object::new failed");
    let cval = rt.object_value(&c);
    assert!(rt.set_property(&obj, "child", &cval).is_ok());
}

#[test]
fn introspection_walks_the_lineage() {
    let mut rt = Runtime::new();
    let (simple, _) = sample_type(&mut rt);
    let sub = rt
        .register_type("SimpleSubObject", simple, Vec::new(), ClassStruct::new())
        .expect("register subtype");
    let obj = rt.new_object(sub, &Vec::new()).expect("construct");

    // A subtype sees its ancestors' properties.
    assert!(rt.has_property(&obj, "name", None).is_ok());
    assert!(rt.has_property(&obj, "name", Some(Type::String)).is_ok());
    assert!(rt.has_property(&obj, "name", Some(Type::Bool)).is_err());
    assert_eq!(
        rt.has_property(&obj, "nope", None).err().unwrap().message(),
        "property 'nope' of type 'SimpleSubObject' not found"
    );

    assert_eq!(rt.get_property_type(&obj, "flag"), Some(Type::Bool));
    assert_eq!(rt.get_property_type(&obj, "nope"), None);

    let found = rt.find_property(&obj, "count").expect("find inherited property");
    assert_eq!(found.spec.minimum, 0);
    assert_eq!(found.spec.maximum, 100);

    let all = rt.list_properties(&obj);
    assert_eq!(all.len(), 7);
    assert_eq!(all[0].spec.name, "name");
    assert_eq!(all[3].spec.name, "child");
}

#[test]
fn reads_carry_the_declared_type() {
    let mut rt = Runtime::new();
    let (simple, child) = sample_type(&mut rt);
    let grandchild = rt
        .register_type("GrandChild", child, Vec::new(), ClassStruct::new())
        .expect("register GrandChild");
    let obj = rt.new_object(simple, &Vec::new()).expect("construct");
    let g = rt.new_object(grandchild, &Vec::new()).expect("construct grandchild");
    let gval = rt.object_value(&g);
    // The boxed value carries the handle's view type, the subtype here.
    assert_eq!(gval.type_(), grandchild);
    rt.set_property(&obj, "child", &gval).expect("set subtype value");
    // Reading boxes the value afresh at the property's declared type, as a
    // freshly typed container would; the instance is unchanged.
    let back = rt.get_property(&obj, "child").expect("get");
    assert_eq!(back.type_(), child);
    assert_eq!(back.get_object(), Some(g.id));
    rt.drop_object(g);
}
