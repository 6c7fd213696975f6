//! Signal registrations, connected handlers, and handler behaviors.
//!
//! A signal is registered per type with a name, parameter types, a return
//! type and emission flags.  Handlers are connected per instance; each holds
//! a behavior that the runtime interprets during emission.  Behaviors are
//! explicit data, so the dispatch of an emission is itself verified code.

use vstd::prelude::*;
use crate::types::Type;
use crate::value::{value_clone, Value};

verus! {

/// Emission flags of a signal registration.
#[derive(Clone, Copy, PartialEq, Eq, Structural, Debug)]
pub struct SignalFlags {
    /// The class handler runs before the connected handlers.
    pub run_first: bool,
    /// The class handler runs between the before- and after-handlers.
    pub run_last: bool,
    /// The signal may be emitted by outside callers as an action.
    pub action: bool,
}

impl SignalFlags {
    /// The usual flags: the class handler runs last.
    pub fn run_last() -> (r: SignalFlags)
        ensures
            r == (SignalFlags { run_first: false, run_last: true, action: false }),
    {
        SignalFlags { run_first: false, run_last: true, action: false }
    }

    /// The class handler runs first.
    pub fn run_first() -> (r: SignalFlags)
        ensures
            r == (SignalFlags { run_first: true, run_last: false, action: false }),
    {
        SignalFlags { run_first: true, run_last: false, action: false }
    }

    /// The same flags with the action bit set.
    pub fn with_action(self) -> (r: SignalFlags)
        ensures
            r == (SignalFlags { action: true, ..self }),
    {
        SignalFlags { action: true, ..self }
    }
}

/// A transformation applied to a property value by a binding.
#[derive(Clone, Debug)]
pub enum Transform {
    /// The value is passed through unchanged.
    Identity,
    /// An integer payload is multiplied by the factor; values whose product
    /// does not fit their type, and non-integer values, are dropped.
    ScaleInt(i64),
    /// A boolean payload is negated; other values are dropped.
    InvertBool,
}

/// What a transform yields on a value: `None` means the value is dropped and
/// nothing is written.
pub open spec fn apply_transform_spec(t: Transform, v: Value) -> Option<Value> {
    match t {
        Transform::Identity => Some(v),
        Transform::ScaleInt(k) => match v {
            Value::I32(n) => if i32::MIN <= n * k <= i32::MAX {
                Some(Value::I32((n * k) as i32))
            } else {
                None
            },
            Value::I64(n) => if i64::MIN <= n * k <= i64::MAX {
                Some(Value::I64((n * k) as i64))
            } else {
                None
            },
            _ => None,
        },
        Transform::InvertBool => match v {
            Value::Bool(b) => Some(Value::Bool(!b)),
            _ => None,
        },
    }
}

/// Applies a transform to a value.
pub fn apply_transform(t: &Transform, v: &Value) -> (r: Option<Value>)
    ensures
        r == apply_transform_spec(*t, *v),
{
    match t {
        Transform::Identity => Some(value_clone(v)),
        Transform::ScaleInt(k) => match v {
            Value::I32(n) => {
                proof {
                    assert((i128::MIN as int) <= (*n as int) * (*k as int) <= (i128::MAX as int))
                        by (nonlinear_arith)
                        requires
                            (i32::MIN as int) <= (*n as int) <= (i32::MAX as int),
                            (i64::MIN as int) <= (*k as int) <= (i64::MAX as int),
                    ;
                }
                let wide: i128 = (*n as i128) * (*k as i128);
                if i32::MIN as i128 <= wide && wide <= i32::MAX as i128 {
                    Some(Value::I32(wide as i32))
                } else {
                    None
                }
            },
            Value::I64(n) => {
                proof {
                    assert((i128::MIN as int) <= (*n as int) * (*k as int) <= (i128::MAX as int))
                        by (nonlinear_arith)
                        requires
                            (i64::MIN as int) <= (*n as int) <= (i64::MAX as int),
                            (i64::MIN as int) <= (*k as int) <= (i64::MAX as int),
                    ;
                }
                let wide: i128 = (*n as i128) * (*k as i128);
                if i64::MIN as i128 <= wide && wide <= i64::MAX as i128 {
                    Some(Value::I64(wide as i64))
                } else {
                    None
                }
            },
            _ => None,
        },
        Transform::InvertBool => match v {
            Value::Bool(b) => Some(Value::Bool(!*b)),
            _ => None,
        },
    }
}

/// What a connected handler does when it runs.
#[derive(Clone, Debug)]
pub enum HandlerBehavior {
    /// Observe the invocation (it is journaled) and return nothing.
    Record,
    /// Return a fixed value.
    ReturnValue(Value),
    /// Return the argument at the given position, or nothing if the
    /// position is out of bounds.
    ReturnArg(usize),
    /// Set a property of the emitting instance to a fixed value, then
    /// return nothing.  Failures of the nested write are swallowed.
    SetProperty { property: String, value: Value },
    /// Keep a target property synchronized with a source property: read the
    /// source, transform, write the target.  While writing, the peer handler
    /// of a two-way binding is blocked.  Failures are swallowed.
    SyncProperty {
        source: usize,
        source_property: String,
        target: usize,
        target_property: String,
        transform: Transform,
        peer: Option<(usize, u64)>,
    },
}

impl HandlerBehavior {
    /// Behaviors that neither read nor change the runtime state.
    pub open spec fn is_passive(self) -> bool {
        match self {
            HandlerBehavior::Record => true,
            HandlerBehavior::ReturnValue(_) => true,
            HandlerBehavior::ReturnArg(_) => true,
            _ => false,
        }
    }

    /// The value a passive behavior supplies for the given arguments.
    pub open spec fn yields(self, args: Seq<Value>) -> Option<Value>
        recommends
            self.is_passive(),
    {
        match self {
            HandlerBehavior::Record => None,
            HandlerBehavior::ReturnValue(v) => Some(v),
            HandlerBehavior::ReturnArg(i) => if i < args.len() {
                Some(args[i as int])
            } else {
                None
            },
            _ => None,
        }
    }
}

/// An exact copy of a transform.  (The derived `Clone` carries no
/// specification.)
pub fn transform_clone(t: &Transform) -> (r: Transform)
    ensures
        r == *t,
{
    match t {
        Transform::Identity => Transform::Identity,
        Transform::ScaleInt(k) => Transform::ScaleInt(*k),
        Transform::InvertBool => Transform::InvertBool,
    }
}

/// An exact copy of a behavior.
pub fn behavior_clone(b: &HandlerBehavior) -> (r: HandlerBehavior)
    ensures
        r == *b,
{
    match b {
        HandlerBehavior::Record => HandlerBehavior::Record,
        HandlerBehavior::ReturnValue(v) => HandlerBehavior::ReturnValue(value_clone(v)),
        HandlerBehavior::ReturnArg(i) => HandlerBehavior::ReturnArg(*i),
        HandlerBehavior::SetProperty { property, value } => HandlerBehavior::SetProperty {
            property: property.clone(),
            value: value_clone(value),
        },
        HandlerBehavior::SyncProperty {
            source,
            source_property,
            target,
            target_property,
            transform,
            peer,
        } => HandlerBehavior::SyncProperty {
            source: *source,
            source_property: source_property.clone(),
            target: *target,
            target_property: target_property.clone(),
            transform: transform_clone(transform),
            peer: *peer,
        },
    }
}

/// An exact copy of a list of types.
pub fn types_clone(v: &Vec<Type>) -> (r: Vec<Type>)
    ensures
        r@ == v@,
{
    let mut r: Vec<Type> = Vec::new();
    let mut i: usize = 0;
    while i < v.len()
        invariant
            i <= v@.len(),
            r@ == v@.subrange(0, i as int),
        decreases v@.len() - i,
    {
        r.push(v[i]);
        proof {
            assert(r@ =~= v@.subrange(0, i + 1 as int));
        }
        i = i + 1;
    }
    proof {
        assert(r@ =~= v@);
    }
    r
}

/// The registration of one signal on one type.
#[derive(Clone, Debug)]
pub struct SignalSpec {
    /// The signal's name, unique within its type's lineage.
    pub name: String,
    /// The declared parameter types, not counting the implicit instance.
    pub param_types: Vec<Type>,
    /// The declared return type; `Type::Unit` for none.
    pub ret_type: Type,
    /// Emission flags.
    pub flags: SignalFlags,
    /// The type's built-in default handler, if any.
    pub class_handler: Option<HandlerBehavior>,
}

/// A copy of a registration, equal to the original field by field.
pub fn signal_spec_clone(s: &SignalSpec) -> (r: SignalSpec)
    ensures
        r.name == s.name,
        r.param_types@ == s.param_types@,
        r.ret_type == s.ret_type,
        r.flags == s.flags,
        r.class_handler == s.class_handler,
{
    SignalSpec {
        name: s.name.clone(),
        param_types: types_clone(&s.param_types),
        ret_type: s.ret_type,
        flags: s.flags,
        class_handler: match &s.class_handler {
            Some(b) => Some(behavior_clone(b)),
            None => None,
        },
    }
}

/// What a handler is connected to.
#[derive(Clone, Debug)]
pub enum HandlerTarget {
    /// A named signal of the instance's type.
    Signal(String),
    /// Change notification, either for one property or for all.
    Notify(Option<String>),
}

/// One connected handler.
#[derive(Clone, Debug)]
#[verifier::ext_equal]
pub struct Handler {
    /// Token identifying this connection on its instance.
    pub id: u64,
    /// The signal or notification the handler is connected to.
    pub target: HandlerTarget,
    /// Whether the handler runs after the class default handler.
    pub after: bool,
    /// How often the handler is currently blocked.
    pub block_count: u64,
    /// False once disconnected; a disconnected handler never runs again.
    pub connected: bool,
    /// What the handler does.
    pub behavior: HandlerBehavior,
}

/// Token scoping a connected handler to one instance.
#[derive(Clone, Copy, Debug)]
pub struct SignalHandlerId {
    /// The instance the handler is connected to.
    pub object: usize,
    /// The per-instance handler token.
    pub raw: u64,
}

/// The record of one handler invocation, kept in the runtime's journal.
#[derive(Clone, Debug)]
pub struct Invocation {
    /// The instance the emission was on.
    pub object: usize,
    /// The invoked handler's token.
    pub handler: u64,
    /// The arguments the handler received, the instance value first.
    pub args: Vec<Value>,
}

} // verus!
