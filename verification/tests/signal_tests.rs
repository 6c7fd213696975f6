//! Tests for the signal system: connect, emit, block, disconnect, return
//! values, change notification, and the end-to-end subtype scenario.

use gobject::object::Runtime;
use gobject::params::{ParamFlags, ParamSpec};
use gobject::signals::{HandlerBehavior, SignalFlags};
use gobject::subclass::{ClassStruct, Property, PropertySetHook};
use gobject::types::Type;
use gobject::value::Value;

fn signal_type(rt: &mut Runtime) -> Type {
    let mut class = ClassStruct::new();
    class.install_property(Property {
        spec: ParamSpec::string("name", ParamFlags::readwrite()),
        setter: PropertySetHook::StoreAndEmit("name-changed".to_string()),
    });
    class.add_signal(
        "name-changed",
        SignalFlags::run_last(),
        vec![Type::String],
        Type::Unit,
    );
    class.add_signal("poked", SignalFlags::run_last(), vec![Type::I32], Type::Unit);
    class.add_signal(
        "create-string",
        SignalFlags::run_last(),
        Vec::new(),
        Type::String,
    );
    rt.register_type("SignalObject", Type::BaseObject, Vec::new(), class)
        .expect("register SignalObject")
}

#[test]
fn handler_fires_once_then_blocking_and_disconnect() {
    let mut rt = Runtime::new();
    let t = signal_type(&mut rt);
    let obj = rt.new_object(t, &Vec::new()).expect("construct");
    let id = rt
        .connect(&obj, "poked", false, HandlerBehavior::Record)
        .expect("connect");

    // One emission invokes the handler exactly once.
    rt.emit(&obj, "poked", &vec![Value::I32(1)]).expect("emit");
    assert_eq!(rt.journal.len(), 1);
    assert_eq!(rt.journal[0].handler, id.raw);
    assert_eq!(rt.journal[0].object, obj.id);
    // The handler received the emitting instance first, then the argument.
    assert_eq!(rt.journal[0].args.len(), 2);
    assert_eq!(rt.journal[0].args[1].get_i32(), Some(1));

    // Blocking prevents invocation without disconnecting.
    rt.block_signal(&id).expect("block");
    rt.emit(&obj, "poked", &vec![Value::I32(2)]).expect("emit while blocked");
    assert_eq!(rt.journal.len(), 1);

    // Unblocking restores it.
    rt.unblock_signal(&id).expect("unblock");
    rt.emit(&obj, "poked", &vec![Value::I32(3)]).expect("emit after unblock");
    assert_eq!(rt.journal.len(), 2);
    assert_eq!(rt.journal[1].args[1].get_i32(), Some(3));

    // After disconnecting, further emission does not invoke it, and the
    // token is dead.
    rt.disconnect(id).expect("disconnect");
    rt.emit(&obj, "poked", &vec![Value::I32(4)]).expect("emit after disconnect");
    assert_eq!(rt.journal.len(), 2);
    assert!(rt.disconnect(id).is_err());
    assert!(rt.block_signal(&id).is_err());
}

#[test]
fn emission_checks_signal_and_arguments() {
    let mut rt = Runtime::new();
    let t = signal_type(&mut rt);
    let obj = rt.new_object(t, &Vec::new()).expect("construct");

    let e = rt.emit(&obj, "no-such-signal", &Vec::new()).err().expect("unknown signal");
    assert_eq!(
        e.message(),
        "signal 'no-such-signal' of type 'SignalObject' not found"
    );

    let e = rt.emit(&obj, "poked", &Vec::new()).err().expect("missing argument");
    assert_eq!(e.message(), "signal 'poked': incompatible number of arguments");

    let e = rt
        .emit(&obj, "poked", &vec![Value::Bool(true)])
        .err()
        .expect("wrong argument type");
    assert_eq!(
        e.message(),
        "signal 'poked': incompatible argument type (expected: 'gint', got: 'gboolean')"
    );

    let e = rt
        .connect(&obj, "no-such-signal", false, HandlerBehavior::Record)
        .err()
        .expect("connect to unknown signal");
    assert_eq!(
        e.message(),
        "signal 'no-such-signal' of type 'SignalObject' not found"
    );
}

#[test]
fn return_values_must_conform() {
    let mut rt = Runtime::new();
    let t = signal_type(&mut rt);
    let obj = rt.new_object(t, &Vec::new()).expect("construct");

    // A signal with a return type and no handlers yields nothing.
    assert!(rt.emit(&obj, "create-string", &Vec::new()).expect("emit").is_none());

    // A conforming handler supplies the value.
    let id = rt
        .connect(
            &obj,
            "create-string",
            false,
            HandlerBehavior::ReturnValue(Value::Str(Some("return value".to_string()))),
        )
        .expect("connect");
    let got = rt
        .emit(&obj, "create-string", &Vec::new())
        .expect("emit")
        .expect("value expected");
    assert_eq!(got.get_str(), Some("return value".to_string()));
    rt.disconnect(id).expect("disconnect");

    // A handler that stays silent on a signal with a return type is an
    // error.
    let id = rt
        .connect(&obj, "create-string", false, HandlerBehavior::Record)
        .expect("connect");
    assert!(rt.emit(&obj, "create-string", &Vec::new()).is_err());
    rt.disconnect(id).expect("disconnect");

    // A handler that supplies a value of the wrong type is an error.
    let id = rt
        .connect(
            &obj,
            "create-string",
            false,
            HandlerBehavior::ReturnValue(Value::Bool(true)),
        )
        .expect("connect");
    assert!(rt.emit(&obj, "create-string", &Vec::new()).is_err());
    rt.disconnect(id).expect("disconnect");

    // Supplying any value to a signal without a return type is rejected.
    let id = rt
        .connect(
            &obj,
            "poked",
            false,
            HandlerBehavior::ReturnValue(Value::Bool(true)),
        )
        .expect("connect");
    assert!(rt.emit(&obj, "poked", &vec![Value::I32(1)]).is_err());
    rt.disconnect(id).expect("disconnect");
}

#[test]
fn last_conforming_return_wins() {
    let mut rt = Runtime::new();
    let t = signal_type(&mut rt);
    let obj = rt.new_object(t, &Vec::new()).expect("construct");
    rt.connect(
        &obj,
        "create-string",
        false,
        HandlerBehavior::ReturnValue(Value::Str(Some("first".to_string()))),
    )
    .expect("connect first");
    rt.connect(
        &obj,
        "create-string",
        false,
        HandlerBehavior::ReturnValue(Value::Str(Some("second".to_string()))),
    )
    .expect("connect second");
    let got = rt
        .emit(&obj, "create-string", &Vec::new())
        .expect("emit")
        .expect("value expected");
    assert_eq!(got.get_str(), Some("second".to_string()));
}

#[test]
fn before_handlers_run_before_after_handlers() {
    let mut rt = Runtime::new();
    let t = signal_type(&mut rt);
    let obj = rt.new_object(t, &Vec::new()).expect("construct");
    let late = rt
        .connect(&obj, "poked", true, HandlerBehavior::Record)
        .expect("connect after");
    let early = rt
        .connect(&obj, "poked", false, HandlerBehavior::Record)
        .expect("connect before");
    rt.emit(&obj, "poked", &vec![Value::I32(9)]).expect("emit");
    assert_eq!(rt.journal.len(), 2);
    assert_eq!(rt.journal[0].handler, early.raw);
    assert_eq!(rt.journal[1].handler, late.raw);
}

#[test]
fn subtype_setter_emits_with_the_new_value() {
    let mut rt = Runtime::new();
    let t = signal_type(&mut rt);
    // Construct with name = "old", connect to "name-changed", then write
    // "new": the setter stores the value and emits the signal, and the
    // handler observes exactly the string "new".
    let params = vec![("name".to_string(), Value::Str(Some("old".to_string())))];
    let obj = rt.new_object(t, &params).expect("construct");
    let id = rt
        .connect(&obj, "name-changed", false, HandlerBehavior::Record)
        .expect("connect");
    rt.set_property(&obj, "name", &Value::Str(Some("new".to_string())))
        .expect("set name");
    assert_eq!(
        rt.get_property(&obj, "name").expect("get").get_str(),
        Some("new".to_string())
    );
    assert_eq!(rt.journal.len(), 1);
    assert_eq!(rt.journal[0].handler, id.raw);
    assert_eq!(rt.journal[0].args.len(), 2);
    assert_eq!(rt.journal[0].args[1].get_str(), Some("new".to_string()));
}

#[test]
fn notification_fires_once_per_write_without_coalescing() {
    let mut rt = Runtime::new();
    let mut class = ClassStruct::new();
    class.install_property(Property::stored(ParamSpec::string(
        "name",
        ParamFlags::readwrite(),
    )));
    class.install_property(Property::stored(ParamSpec::boolean(
        "flag",
        false,
        ParamFlags::readwrite(),
    )));
    let t = rt
        .register_type("Notifier", Type::BaseObject, Vec::new(), class)
        .expect("register");
    let obj = rt.new_object(t, &Vec::new()).expect("construct");
    let on_name = rt.connect_notify(&obj, Some("name"), HandlerBehavior::Record);
    let on_all = rt.connect_notify(&obj, None, HandlerBehavior::Record);

    let v = Value::Str(Some("same".to_string()));
    rt.set_property(&obj, "name", &v).expect("first write");
    // Both the per-property and the catch-all handler fired once.
    assert_eq!(rt.journal.len(), 2);
    assert_eq!(rt.journal[0].handler, on_name.raw);
    assert_eq!(rt.journal[1].handler, on_all.raw);

    // Writing the same value again notifies again: no coalescing.
    rt.set_property(&obj, "name", &v).expect("second write");
    assert_eq!(rt.journal.len(), 4);

    // A write to another property skips the per-property handler.
    rt.set_property(&obj, "flag", &Value::Bool(true)).expect("other write");
    assert_eq!(rt.journal.len(), 5);
    assert_eq!(rt.journal[4].handler, on_all.raw);

    // Notification can also be fired by hand.
    rt.notify(&obj, "name").expect("notify");
    assert_eq!(rt.journal.len(), 7);
}

#[test]
fn runaway_re_entrancy_is_a_controlled_error() {
    let mut rt = Runtime::new();
    // The setter of "loop-prop" emits "looped", and a handler of "looped"
    // writes "loop-prop" again: the regress never settles, so the runtime
    // reports a failure instead of recursing forever.
    let mut class = ClassStruct::new();
    class.install_property(Property {
        spec: ParamSpec::string("loop-prop", ParamFlags::readwrite()),
        setter: PropertySetHook::StoreAndEmit("looped".to_string()),
    });
    class.add_signal("looped", SignalFlags::run_last(), vec![Type::String], Type::Unit);
    let t = rt
        .register_type("Looper", Type::BaseObject, Vec::new(), class)
        .expect("register");
    let obj = rt.new_object(t, &Vec::new()).expect("construct");
    rt.connect(
        &obj,
        "looped",
        false,
        HandlerBehavior::SetProperty {
            property: "loop-prop".to_string(),
            value: Value::Str(Some("again".to_string())),
        },
    )
    .expect("connect");
    // The write terminates: the regress is cut off at the re-entrancy
    // bound, the deepest failure is swallowed by the handler that caused
    // it, and the runtime stays usable.
    rt.set_property(&obj, "loop-prop", &Value::Str(Some("go".to_string())))
        .expect("the bounded regress still commits");
    assert_eq!(
        rt.get_property(&obj, "loop-prop").expect("get").get_str(),
        Some("again".to_string())
    );
    // The handler ran once per nesting level, no more.
    assert!(rt.journal.len() >= 1);
    assert!(rt.journal.len() <= 16);
}

#[test]
fn class_handler_runs_at_its_declared_stage() {
    let mut rt = Runtime::new();
    // Two registrations differing only in the class handler's stage.
    let mut class = ClassStruct::new();
    class.add_signal_with_class_handler(
        "make-last",
        SignalFlags::run_last(),
        Vec::new(),
        Type::String,
        HandlerBehavior::ReturnValue(Value::Str(Some("class".to_string()))),
    );
    class.add_signal_with_class_handler(
        "make-first",
        SignalFlags::run_first(),
        Vec::new(),
        Type::String,
        HandlerBehavior::ReturnValue(Value::Str(Some("class".to_string()))),
    );
    let t = rt
        .register_type("Staged", Type::BaseObject, Vec::new(), class)
        .expect("register");
    let obj = rt.new_object(t, &Vec::new()).expect("construct");
    rt.connect(
        &obj,
        "make-last",
        false,
        HandlerBehavior::ReturnValue(Value::Str(Some("connected".to_string()))),
    )
    .expect("connect");
    rt.connect(
        &obj,
        "make-first",
        false,
        HandlerBehavior::ReturnValue(Value::Str(Some("connected".to_string()))),
    )
    .expect("connect");
    // With the class handler last, it overwrites the connected handler's
    // return; with it first, the connected handler has the final word.
    let last = rt.emit(&obj, "make-last", &Vec::new()).expect("emit").expect("value");
    assert_eq!(last.get_str(), Some("class".to_string()));
    let first = rt.emit(&obj, "make-first", &Vec::new()).expect("emit").expect("value");
    assert_eq!(first.get_str(), Some("connected".to_string()));
}

#[test]
fn test_signal_return_expected_type() {
    let mut rt = Runtime::new();
    let t = signal_type(&mut rt);
    let obj = rt.new_object(t, &Vec::new()).expect("Object::new failed");

    rt.connect(
        &obj,
        "create-string",
        false,
        HandlerBehavior::ReturnValue(Value::Str(Some("return value".to_string()))),
    )
    .expect("Failed to connect on 'create-string'");

    let value = rt
        .emit(&obj, "create-string", &Vec::new())
        .expect("Failed to emit")
        .expect("Failed to get value from emit");
    assert_eq!(value.get_str(), Some("return value".to_string()));
}

#[test]
fn test_callback_validity() {
    let mut rt = Runtime::new();
    let t = signal_type(&mut rt);
    let params = vec![("name".to_string(), Value::Str(Some("old-name".to_string())))];
    let obj = rt.new_object(t, &params).expect("Object::new failed");

    let id = rt.connect_notify(&obj, Some("name"), HandlerBehavior::Record);
    rt.notify(&obj, "name").expect("notify");
    assert_eq!(rt.journal.len(), 1);
    assert_eq!(rt.journal[0].handler, id.raw);
}

#[test]
fn test_signal_return_expected_object_type() {
    let mut rt = Runtime::new();
    let child = rt
        .register_type("ChildObject", Type::BaseObject, Vec::new(), ClassStruct::new())
        .expect("register ChildObject");
    let mut class = ClassStruct::new();
    class.add_signal("create-child-object", SignalFlags::run_last(), Vec::new(), child);
    let t = rt
        .register_type("SimpleObject", Type::BaseObject, Vec::new(), class)
        .expect("register SimpleObject");
    let obj = rt.new_object(t, &Vec::new()).expect("Object::new failed");

    let supplied = rt.new_object(child, &Vec::new()).expect("Object::new failed");
    let sval = rt.object_value(&supplied);
    rt.connect(&obj, "create-child-object", false, HandlerBehavior::ReturnValue(sval))
        .expect("Failed to connect on 'create-child-object'");

    let value = rt
        .emit(&obj, "create-child-object", &Vec::new())
        .expect("Failed to emit")
        .expect("Failed to get value from emit");
    assert!(rt.registry.is_a(value.type_(), child));
}
