//! The subclassing surface: per-type class data and per-instance state.
//!
//! A host-defined type participates in the type system by registering a
//! [`ClassStruct`]: its property descriptors, signal registrations and hooks.
//! Hooks are explicit data interpreted by the runtime — the property setter
//! can store the value, store it and then emit a signal, or ignore it, and a
//! post-construction hook can mark an instance as constructed.

use vstd::prelude::*;
use crate::params::ParamSpec;
use crate::signals::{Handler, HandlerBehavior, SignalFlags, SignalSpec};
use crate::types::Type;
use crate::value::Value;

verus! {

/// What a type's property setter does with a validated value.
#[derive(Clone, Debug)]
pub enum PropertySetHook {
    /// Store the value in the instance's property slot.
    Store,
    /// Store the value, then emit the named signal with the value as the
    /// single argument.
    StoreAndEmit(String),
    /// Accept the write but keep nothing.
    Ignore,
}

/// Definition of a property: its descriptor together with the declaring
/// type's setter hook for it.
#[derive(Clone, Debug)]
pub struct Property {
    /// The property's descriptor.
    pub spec: ParamSpec,
    /// The declaring type's setter behavior.
    pub setter: PropertySetHook,
}

impl Property {
    /// A property whose setter simply stores the value.
    pub fn stored(spec: ParamSpec) -> (r: Property)
        ensures
            r.spec == spec,
            r.setter is Store,
    {
        Property { spec, setter: PropertySetHook::Store }
    }
}

/// An exact copy of a setter hook.  (The derived `Clone` carries no
/// specification.)
pub fn setter_clone(h: &PropertySetHook) -> (r: PropertySetHook)
    ensures
        r == *h,
{
    match h {
        PropertySetHook::Store => PropertySetHook::Store,
        PropertySetHook::StoreAndEmit(sig) => PropertySetHook::StoreAndEmit(sig.clone()),
        PropertySetHook::Ignore => PropertySetHook::Ignore,
    }
}

/// An exact copy of a property definition.
pub fn property_clone(p: &Property) -> (r: Property)
    ensures
        r == *p,
{
    Property { spec: crate::params::param_spec_clone(&p.spec), setter: setter_clone(&p.setter) }
}

/// The class data installed when a type is registered: property descriptors,
/// signal registrations, and hooks.  Process-wide and immutable once the
/// registration completes.
#[derive(Clone, Debug)]
pub struct ClassStruct {
    /// The type's own properties, in installation order.
    pub properties: Vec<Property>,
    /// The type's own signals, in installation order.
    pub signals: Vec<SignalSpec>,
    /// A post-construction hook: the named boolean property of the type is
    /// set to true once construction finishes.
    pub mark_constructed: Option<String>,
    /// Instances of the type start with a floating reference that the first
    /// sink operation turns into an owned one.
    pub initially_unowned: bool,
}

impl ClassStruct {
    /// A class with no properties, signals or hooks.
    pub fn new() -> (r: ClassStruct)
        ensures
            r.properties@ == Seq::<Property>::empty(),
            r.signals@ == Seq::<SignalSpec>::empty(),
            r.mark_constructed is None,
            r.initially_unowned == false,
    {
        ClassStruct {
            properties: Vec::new(),
            signals: Vec::new(),
            mark_constructed: None,
            initially_unowned: false,
        }
    }

    /// Installs one more property on the class being built.
    pub fn install_property(&mut self, p: Property)
        ensures
            final(self).properties@ == old(self).properties@.push(p),
            final(self).signals == old(self).signals,
            final(self).mark_constructed == old(self).mark_constructed,
            final(self).initially_unowned == old(self).initially_unowned,
    {
        self.properties.push(p);
    }

    /// Installs properties on the class being built, in order.
    pub fn install_properties(&mut self, properties: Vec<Property>)
        ensures
            final(self).properties@ == old(self).properties@ + properties@,
            final(self).signals == old(self).signals,
            final(self).mark_constructed == old(self).mark_constructed,
            final(self).initially_unowned == old(self).initially_unowned,
    {
        let mut rest = properties;
        self.properties.append(&mut rest);
    }

    /// Adds a signal registration without a class handler.
    pub fn add_signal(&mut self, name: &str, flags: SignalFlags, arg_types: Vec<Type>, ret_type:
        Type)
        ensures
            final(self).signals@.len() == old(self).signals@.len() + 1,
            final(self).signals@.drop_last() == old(self).signals@,
            final(self).signals@.last().name@ == name@,
            final(self).signals@.last().param_types == arg_types,
            final(self).signals@.last().ret_type == ret_type,
            final(self).signals@.last().flags == flags,
            final(self).signals@.last().class_handler is None,
            final(self).properties == old(self).properties,
            final(self).mark_constructed == old(self).mark_constructed,
            final(self).initially_unowned == old(self).initially_unowned,
    {
        self.signals.push(SignalSpec {
            name: String::from_str(name),
            param_types: arg_types,
            ret_type,
            flags,
            class_handler: None,
        });
    }

    /// Adds a signal registration whose class default handler is the given
    /// behavior.
    pub fn add_signal_with_class_handler(
        &mut self,
        name: &str,
        flags: SignalFlags,
        arg_types: Vec<Type>,
        ret_type: Type,
        class_handler: HandlerBehavior,
    )
        ensures
            final(self).signals@.len() == old(self).signals@.len() + 1,
            final(self).signals@.drop_last() == old(self).signals@,
            final(self).signals@.last().name@ == name@,
            final(self).signals@.last().param_types == arg_types,
            final(self).signals@.last().ret_type == ret_type,
            final(self).signals@.last().flags == flags,
            final(self).signals@.last().class_handler == Some(class_handler),
            final(self).properties == old(self).properties,
            final(self).mark_constructed == old(self).mark_constructed,
            final(self).initially_unowned == old(self).initially_unowned,
    {
        self.signals.push(SignalSpec {
            name: String::from_str(name),
            param_types: arg_types,
            ret_type,
            flags,
            class_handler: Some(class_handler),
        });
    }
}

/// The per-instance state the runtime keeps for one object.
#[derive(Clone, Debug)]
#[verifier::ext_equal]
pub struct InstanceStruct {
    /// The instance's runtime type.
    pub ty: Type,
    /// The number of strong references currently held.
    pub ref_count: u64,
    /// The instance still carries the floating reference it was created
    /// with; the first sink turns it into an ordinary owned reference.
    pub floating: bool,
    /// False once the last strong reference was dropped; a destroyed
    /// instance is never revived.
    pub alive: bool,
    /// The stored property values, one per property of the full lineage, in
    /// lineage order.
    pub props: Vec<Value>,
    /// The connected handlers, in connection order.
    pub handlers: Vec<Handler>,
    /// The token the next connection on this instance receives.
    pub next_handler_id: u64,
}

} // verus!
