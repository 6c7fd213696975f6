//! The object runtime: instances, handles, reference counting, weak
//! references, casts, and the property and signal operations.
//!
//! All state a foreign object system would keep behind process-global
//! tables lives in one explicit [`Runtime`] value: the type registry, the
//! instances, and a journal of handler invocations.  Every operation is a
//! function from one runtime state to the next, so the reference-counting
//! discipline, the property pipeline and the signal dispatch are verified.

use vstd::prelude::*;
use crate::error::ObjectError;
use crate::registry::{find_prop_in, lemma_find_prop_in, TypeRegistry};
use crate::signals::{Handler, HandlerTarget, HandlerBehavior, Invocation, SignalHandlerId};
use crate::strutil::str_eq;
use crate::subclass::{ClassStruct, InstanceStruct, Property};
use crate::types::Type;
use crate::value::{value_clone, Value};

verus! {

/// A strong handle to one object instance.
///
/// The handle records the instance it refers to and the static type it is
/// currently viewed at — always the runtime type of the instance or one of
/// its ancestors or interfaces.  Handles are equal exactly when they refer
/// to the same instance, whatever type they are viewed at.
#[derive(Debug)]
pub struct Object {
    /// The instance referred to.
    pub id: usize,
    /// The type the handle views the instance at.
    pub ty: Type,
}

impl PartialEq for Object {
    fn eq(&self, other: &Object) -> (r: bool) {
        self.id == other.id
    }
}

impl vstd::std_specs::cmp::PartialEqSpecImpl for Object {
    open spec fn obeys_eq_spec() -> bool {
        true
    }

    open spec fn eq_spec(&self, other: &Object) -> bool {
        self.id == other.id
    }
}

impl Eq for Object {}

/// A non-owning observer of one instance's liveness.  Upgrading is the only
/// way back to a strong handle and succeeds only while the instance is
/// alive.
#[derive(Clone, Copy, Debug)]
pub struct WeakRef {
    /// The instance observed, if any.
    pub id: Option<usize>,
}

impl WeakRef {
    /// A weak reference observing nothing; upgrading it never succeeds.
    pub fn new() -> (r: WeakRef)
        ensures
            r.id is None,
    {
        WeakRef { id: None }
    }
}

/// The object runtime: the registry, the instances, the journal of handler
/// invocations, and the program name.
pub struct Runtime {
    /// The type registry.
    pub registry: TypeRegistry,
    /// All instances ever created, alive or destroyed, by identifier.
    pub instances: Vec<InstanceStruct>,
    /// The record of every handler invocation, in dispatch order.
    pub journal: Vec<Invocation>,
    /// The program name, if one was set.
    pub program_name: Option<String>,
}

/// The sequences are equal except possibly at one position.
pub open spec fn same_except(pre: Seq<InstanceStruct>, post: Seq<InstanceStruct>, i: int) -> bool {
    &&& post.len() == pre.len()
    &&& (forall|j: int| 0 <= j < pre.len() && j != i ==> post[j] == pre[j])
}

/// One more strong reference on instance `i`.
pub open spec fn clone_step(insts: Seq<InstanceStruct>, i: int) -> Seq<InstanceStruct>
    recommends
        0 <= i < insts.len(),
{
    insts.update(i, InstanceStruct { ref_count: (insts[i].ref_count + 1) as u64, ..insts[i] })
}

/// One strong reference on instance `i` gone; the last one destroys the
/// instance.
pub open spec fn drop_step(insts: Seq<InstanceStruct>, i: int) -> Seq<InstanceStruct>
    recommends
        0 <= i < insts.len(),
{
    if insts[i].ref_count > 1 {
        insts.update(i, InstanceStruct { ref_count: (insts[i].ref_count - 1) as u64, ..insts[i] })
    } else {
        insts.update(i, InstanceStruct { ref_count: 0, alive: false, ..insts[i] })
    }
}

impl Runtime {
    /// One instance's state.
    pub open spec fn inst(self, i: int) -> InstanceStruct {
        self.instances@[i]
    }

    /// Well-formedness of one instance: its type is an object type, it has
    /// one property slot per property of its lineage, each slot holds a
    /// value of the declared type (or a subtype), a live instance holds at
    /// least one reference and a destroyed one none, and handler tokens are
    /// unique.
    pub open spec fn wf_instance(self, i: int) -> bool
        recommends
            0 <= i < self.instances@.len(),
    {
        let inst = self.instances@[i];
        let table = self.registry.all_props(inst.ty);
        &&& self.registry.is_object_type(inst.ty)
        &&& inst.props@.len() == table.len()
        &&& (forall|k: int|
            0 <= k < table.len() ==> self.registry.is_a_spec(
                (#[trigger] inst.props@[k]).value_type(),
                table[k].spec.value_type,
            ))
        &&& (inst.alive ==> inst.ref_count >= 1)
        &&& (!inst.alive ==> inst.ref_count == 0)
        &&& (forall|k: int|
            0 <= k < inst.handlers@.len() ==> (#[trigger] inst.handlers@[k]).id
                < inst.next_handler_id)
        &&& (forall|k1: int, k2: int|
            0 <= k1 < k2 < inst.handlers@.len() ==> (#[trigger] inst.handlers@[k1]).id
                != (#[trigger] inst.handlers@[k2]).id)
    }

    /// Well-formedness of the runtime.
    pub open spec fn wf(self) -> bool {
        &&& self.registry.wf()
        &&& (forall|i: int| 0 <= i < self.instances@.len() ==> self.wf_instance(i))
    }

    /// The handle refers to a live instance, viewed at the runtime type or
    /// one of its ancestors or interfaces.
    pub open spec fn valid_obj(self, o: Object) -> bool {
        &&& o.id < self.instances@.len()
        &&& self.instances@[o.id as int].alive
        &&& self.registry.is_a_spec(self.instances@[o.id as int].ty, o.ty)
    }

    /// A fresh runtime: an empty registry, no instances, an empty journal.
    pub fn new() -> (r: Runtime)
        ensures
            r.wf(),
            r.registry.entries@ == Seq::<crate::registry::TypeEntry>::empty(),
            r.instances@ == Seq::<InstanceStruct>::empty(),
            r.journal@ == Seq::<Invocation>::empty(),
            r.program_name is None,
    {
        Runtime {
            registry: TypeRegistry::new(),
            instances: Vec::new(),
            journal: Vec::new(),
            program_name: None,
        }
    }

    /// Existing instances are untouched by a registry extension.
    proof fn lemma_registry_extend_preserves_instances(pre: Runtime, post: Runtime)
        requires
            pre.wf(),
            post.registry.wf(),
            post.registry.extends(pre.registry),
            post.instances == pre.instances,
        ensures
            post.wf(),
    {
        assert forall|i: int| 0 <= i < post.instances@.len() implies post.wf_instance(i) by {
            assert(pre.wf_instance(i));
            let inst = pre.instances@[i];
            post.registry.lemma_all_props_extend(pre.registry, inst.ty);
            let table = pre.registry.all_props(inst.ty);
            assert forall|k: int|
                0 <= k < table.len() implies post.registry.is_a_spec(
                (#[trigger] inst.props@[k]).value_type(),
                table[k].spec.value_type,
            ) by {
                let vt = inst.props@[k].value_type();
                let decl = table[k].spec.value_type;
                if vt == decl {
                    post.registry.lemma_is_a_reflexive(vt);
                } else {
                    pre.registry.lemma_is_a_valid(vt, decl);
                    post.registry.lemma_is_a_extend(pre.registry, vt, decl);
                }
            }
        }
    }

    /// Registers a new object type.  See
    /// [`TypeRegistry::register_type`] for the contract on the registry.
    pub fn register_type(&mut self, name: &str, parent: Type, ifaces: Vec<Type>, class:
        ClassStruct) -> (r: Result<Type, ObjectError>)
        requires
            old(self).wf(),
        ensures
            final(self).wf(),
            final(self).instances == old(self).instances,
            final(self).journal == old(self).journal,
            final(self).registry.extends(old(self).registry),
            match r {
                Ok(t) => {
                    &&& t == Type::Other(old(self).registry.entries@.len() as usize)
                    &&& final(self).registry.entries@.len() == old(self).registry.entries@.len() + 1
                    &&& final(self).registry.valid_type(t)
                    &&& !final(self).registry.entry(t).iface
                    &&& final(self).registry.entry(t).parent == parent
                    &&& final(self).registry.entry(t).ifaces == ifaces
                    &&& final(self).registry.entry(t).class == class
                    &&& final(self).registry.name_of_type(t) == name@
                    &&& old(self).registry.entry_named(name@) is None
                    &&& crate::registry::fundamental_named(name@) is None
                    &&& (parent == Type::BaseObject || (parent is Other && old(self).registry.valid_type(parent) && !old(self).registry.entry(parent).iface))
                    &&& final(self).registry.all_props(t) == old(self).registry.all_props(parent)
                        + class.properties@
                    &&& final(self).registry.all_signals(t) == old(self).registry.all_signals(
                        parent,
                    ) + class.signals@
                },
                Err(_) => final(self).registry == old(self).registry,
            },
            old(self).registry.registration_acceptable(name@, parent, ifaces@, class) ==> r is Ok,
    {
        let ghost pre = *self;
        let r = self.registry.register_type(name, parent, ifaces, class);
        proof {
            if r is Err {
                assert(self.registry == pre.registry);
            }
            Self::lemma_registry_extend_preserves_instances(pre, *self);
        }
        r
    }

    /// Registers a new interface type.
    pub fn register_interface(&mut self, name: &str) -> (r: Result<Type, ObjectError>)
        requires
            old(self).wf(),
        ensures
            final(self).wf(),
            final(self).instances == old(self).instances,
            final(self).journal == old(self).journal,
            final(self).registry.extends(old(self).registry),
            match r {
                Ok(t) => {
                    &&& t == Type::Other(old(self).registry.entries@.len() as usize)
                    &&& final(self).registry.entries@.len() == old(self).registry.entries@.len() + 1
                    &&& final(self).registry.is_interface(t)
                    &&& final(self).registry.entry(t).parent == Type::BaseInterface
                    &&& final(self).registry.name_of_type(t) == name@
                    &&& old(self).registry.entry_named(name@) is None
                    &&& crate::registry::fundamental_named(name@) is None
                },
                Err(_) => final(self).registry == old(self).registry,
            },
            (name@.len() > 0 && old(self).registry.entry_named(name@) is None
                && crate::registry::fundamental_named(name@) is None) ==> r is Ok,
    {
        let ghost pre = *self;
        let r = self.registry.register_interface(name);
        proof {
            Self::lemma_registry_extend_preserves_instances(pre, *self);
        }
        r
    }

    /// The current strong reference count of the instance behind a handle.
    pub fn ref_count(&self, o: &Object) -> (r: u64)
        requires
            o.id < self.instances@.len(),
        ensures
            r == self.instances@[o.id as int].ref_count,
    {
        self.instances[o.id].ref_count
    }

    /// Whether the instance is still alive.
    pub fn is_alive(&self, id: usize) -> (r: bool)
        requires
            id < self.instances@.len(),
        ensures
            r == self.instances@[id as int].alive,
    {
        self.instances[id].alive
    }

    /// Takes one more strong reference and hands out a second handle to the
    /// same instance.  The new handle views the instance at the same type.
    pub fn clone_object(&mut self, o: &Object) -> (r: Object)
        requires
            old(self).wf(),
            old(self).valid_obj(*o),
            old(self).instances@[o.id as int].ref_count < u64::MAX,
        ensures
            final(self).wf(),
            final(self).valid_obj(*o),
            final(self).instances@ == clone_step(old(self).instances@, o.id as int),
            final(self).registry == old(self).registry,
            final(self).journal == old(self).journal,
            final(self).program_name == old(self).program_name,
            r.id == o.id,
            r.ty == o.ty,
    {
        let inst = &mut self.instances[o.id];
        inst.ref_count = inst.ref_count + 1;
        proof {
            assert forall|j: int| 0 <= j < self.instances@.len() implies self.wf_instance(
                j,
            ) by {
                assert(old(self).wf_instance(j));
            }
        }
        Object { id: o.id, ty: o.ty }
    }

    /// Gives up one strong reference.  When the last one goes, the instance
    /// is destroyed: it is never revived, and its handler tokens become
    /// invalid.
    pub fn drop_object(&mut self, o: Object)
        requires
            old(self).wf(),
            old(self).valid_obj(o),
        ensures
            final(self).wf(),
            final(self).instances@ == drop_step(old(self).instances@, o.id as int),
            final(self).registry == old(self).registry,
            final(self).journal == old(self).journal,
            final(self).program_name == old(self).program_name,
            final(self).instances@[o.id as int].alive <==> old(self).instances@[o.id
                as int].ref_count > 1,
    {
        let inst = &mut self.instances[o.id];
        if inst.ref_count > 1 {
            inst.ref_count = inst.ref_count - 1;
        } else {
            inst.ref_count = 0;
            inst.alive = false;
        }
        proof {
            assert forall|j: int| 0 <= j < self.instances@.len() implies self.wf_instance(
                j,
            ) by {
                assert(old(self).wf_instance(j));
            }
        }
    }

    /// Wraps an instance the caller received while someone else holds a
    /// reference to it: takes a new reference of its own.
    pub fn from_borrowed(&mut self, id: usize) -> (r: Object)
        requires
            old(self).wf(),
            id < old(self).instances@.len(),
            old(self).instances@[id as int].alive,
            old(self).instances@[id as int].ref_count < u64::MAX,
        ensures
            final(self).wf(),
            final(self).instances@ == clone_step(old(self).instances@, id as int),
            final(self).registry == old(self).registry,
            final(self).journal == old(self).journal,
            r.id == id,
            r.ty == final(self).instances@[id as int].ty,
            final(self).valid_obj(r),
    {
        let ty = self.instances[id].ty;
        let inst = &mut self.instances[id];
        inst.ref_count = inst.ref_count + 1;
        proof {
            self.registry.lemma_is_a_reflexive(ty);
            assert forall|j: int| 0 <= j < self.instances@.len() implies self.wf_instance(
                j,
            ) by {
                assert(old(self).wf_instance(j));
            }
        }
        Object { id, ty }
    }

    /// Wraps an instance whose reference the caller already owns: the count
    /// stays as it is, and the handle takes over that reference.
    pub fn from_owned(&mut self, id: usize) -> (r: Object)
        requires
            old(self).wf(),
            id < old(self).instances@.len(),
            old(self).instances@[id as int].alive,
        ensures
            *final(self) == *old(self),
            r.id == id,
            r.ty == final(self).instances@[id as int].ty,
            final(self).valid_obj(r),
    {
        let ty = self.instances[id].ty;
        proof {
            self.registry.lemma_is_a_reflexive(ty);
        }
        Object { id, ty }
    }

    /// Wraps a floating instance: the one sink operation turns the floating
    /// reference into the handle's owned reference.  On an instance already
    /// sunk it takes a new reference instead.
    pub fn from_floating(&mut self, id: usize) -> (r: Object)
        requires
            old(self).wf(),
            id < old(self).instances@.len(),
            old(self).instances@[id as int].alive,
            old(self).instances@[id as int].ref_count < u64::MAX,
        ensures
            final(self).wf(),
            final(self).registry == old(self).registry,
            final(self).journal == old(self).journal,
            old(self).instances@[id as int].floating ==> final(self).instances@ == old(self).instances@.update(
                id as int,
                InstanceStruct { floating: false, ..old(self).instances@[id as int] },
            ),
            !old(self).instances@[id as int].floating ==> final(self).instances@ == clone_step(
                old(self).instances@,
                id as int,
            ),
            r.id == id,
            r.ty == final(self).instances@[id as int].ty,
            final(self).valid_obj(r),
    {
        let ty = self.instances[id].ty;
        let inst = &mut self.instances[id];
        if inst.floating {
            inst.floating = false;
        } else {
            inst.ref_count = inst.ref_count + 1;
        }
        proof {
            self.registry.lemma_is_a_reflexive(ty);
            assert forall|j: int| 0 <= j < self.instances@.len() implies self.wf_instance(
                j,
            ) by {
                assert(old(self).wf_instance(j));
            }
        }
        Object { id, ty }
    }

    /// Creates a weak reference observing the handle's instance, without
    /// taking a strong reference.
    pub fn downgrade(&self, o: &Object) -> (r: WeakRef)
        ensures
            r.id == Some(o.id),
    {
        WeakRef { id: Some(o.id) }
    }

    /// Tries to upgrade a weak reference: while the instance is alive this
    /// takes a new strong reference and returns a handle; once the instance
    /// was destroyed it returns nothing.
    pub fn upgrade(&mut self, w: &WeakRef) -> (r: Option<Object>)
        requires
            old(self).wf(),
            (match w.id {
                Some(id) => id < old(self).instances@.len() && (old(self).instances@[id
                    as int].alive ==> old(self).instances@[id as int].ref_count < u64::MAX),
                None => true,
            }),
        ensures
            final(self).wf(),
            final(self).registry == old(self).registry,
            final(self).journal == old(self).journal,
            match w.id {
                Some(id) => {
                    if old(self).instances@[id as int].alive {
                        &&& r is Some
                        &&& r->0.id == id
                        &&& final(self).instances@ == clone_step(old(self).instances@, id as int)
                        &&& final(self).valid_obj(r->0)
                    } else {
                        r is None && final(self).instances@ == old(self).instances@
                    }
                },
                None => r is None && final(self).instances@ == old(self).instances@,
            },
    {
        match w.id {
            Some(id) => {
                if self.instances[id].alive {
                    let ty = self.instances[id].ty;
                    let inst = &mut self.instances[id];
                    inst.ref_count = inst.ref_count + 1;
                    proof {
                        self.registry.lemma_is_a_reflexive(ty);
                        assert forall|j: int| 0 <= j < self.instances@.len()
                            implies self.wf_instance(j) by {
                            assert(old(self).wf_instance(j));
                        }
                    }
                    Some(Object { id, ty })
                } else {
                    None
                }
            },
            None => None,
        }
    }

    /// The runtime type of the instance behind a handle.
    pub fn get_type(&self, o: &Object) -> (r: Type)
        requires
            o.id < self.instances@.len(),
        ensures
            r == self.instances@[o.id as int].ty,
    {
        self.instances[o.id].ty
    }

    /// Whether the instance behind the handle is an instance of `t`.
    pub fn object_is(&self, o: &Object, t: Type) -> (r: bool)
        requires
            self.wf(),
            o.id < self.instances@.len(),
        ensures
            r == self.registry.is_a_spec(self.instances@[o.id as int].ty, t),
    {
        let ty = self.instances[o.id].ty;
        self.registry.is_a(ty, t)
    }

    /// Views the handle at an ancestor or interface of its current view
    /// type.  The relation must already be known; the cast never fails and
    /// the handle keeps referring to the same instance.
    pub fn upcast(&self, o: Object, target: Type) -> (r: Object)
        requires
            self.wf(),
            self.valid_obj(o),
            self.registry.is_a_spec(o.ty, target),
        ensures
            r.id == o.id,
            r.ty == target,
            self.valid_obj(r),
    {
        proof {
            self.registry.lemma_is_a_transitive(
                self.instances@[o.id as int].ty,
                o.ty,
                target,
            );
        }
        Object { id: o.id, ty: target }
    }

    /// Tries to view the handle at a subtype of its current view type.  The
    /// instance's runtime type decides: on success the narrowed handle is
    /// returned, otherwise the original handle comes back unchanged.
    pub fn downcast(&self, o: Object, target: Type) -> (r: Result<Object, Object>)
        requires
            self.wf(),
            self.valid_obj(o),
            self.registry.is_a_spec(target, o.ty),
        ensures
            self.registry.is_a_spec(self.instances@[o.id as int].ty, target) ==> r
                == Result::<Object, Object>::Ok(Object { id: o.id, ty: target }),
            !self.registry.is_a_spec(self.instances@[o.id as int].ty, target) ==> r
                == Result::<Object, Object>::Err(o),
            match r {
                Ok(n) => n.id == o.id && self.valid_obj(n),
                Err(n) => n == o,
            },
    {
        let ty = self.instances[o.id].ty;
        if self.registry.is_a(ty, target) {
            Ok(Object { id: o.id, ty: target })
        } else {
            Err(o)
        }
    }

    /// Tries to view the handle at an arbitrary type, related or not; the
    /// instance's runtime type decides at run time.
    pub fn dynamic_cast(&self, o: Object, target: Type) -> (r: Result<Object, Object>)
        requires
            self.wf(),
            self.valid_obj(o),
        ensures
            self.registry.is_a_spec(self.instances@[o.id as int].ty, target) ==> r
                == Result::<Object, Object>::Ok(Object { id: o.id, ty: target }),
            !self.registry.is_a_spec(self.instances@[o.id as int].ty, target) ==> r
                == Result::<Object, Object>::Err(o),
            match r {
                Ok(n) => n.id == o.id && self.valid_obj(n),
                Err(n) => n == o,
            },
    {
        let ty = self.instances[o.id].ty;
        if self.registry.is_a(ty, target) {
            Ok(Object { id: o.id, ty: target })
        } else {
            Err(o)
        }
    }

    /// A value carrying the handle's instance, tagged at the type the
    /// handle views it at — the way a statically typed wrapper is boxed.
    pub fn object_value(&self, o: &Object) -> (r: Value)
        ensures
            r == Value::Object(o.ty, Some(o.id)),
    {
        Value::Object(o.ty, Some(o.id))
    }
}

/// The reason a construct-time parameter is rejected.
pub enum ParamFault {
    /// No property of that name.
    NotFound,
    /// The property is not writable at all.
    NotWritable,
    /// The value's type is not the declared type or a subtype.
    Mismatch,
    /// The value is out of range and the property does not validate laxly.
    OutOfRange,
}

/// How a construct-time parameter fares against the type's property table.
pub open spec fn param_fault(reg: TypeRegistry, ty: Type, name: Seq<char>, v: Value) -> Option<
    ParamFault,
> {
    match find_prop_in(reg.all_props(ty), name) {
        None => Some(ParamFault::NotFound),
        Some(k) => {
            let p = reg.all_props(ty)[k];
            if !p.spec.flags.writable {
                Some(ParamFault::NotWritable)
            } else if !reg.is_a_spec(v.value_type(), p.spec.value_type) {
                Some(ParamFault::Mismatch)
            } else if !p.spec.in_range(v) && !p.spec.flags.lax_validation {
                Some(ParamFault::OutOfRange)
            } else {
                None
            }
        },
    }
}

/// The first rejected parameter, with its reason.
pub open spec fn first_fault(reg: TypeRegistry, ty: Type, params: Seq<(String, Value)>) -> Option<
    (int, ParamFault),
>
    decreases params.len(),
{
    if params.len() == 0 {
        None
    } else {
        match param_fault(reg, ty, params[0].0@, params[0].1) {
            Some(f) => Some((0, f)),
            None => match first_fault(reg, ty, params.drop_first()) {
                Some((k, f)) => Some((k + 1, f)),
                None => None,
            },
        }
    }
}

/// What `first_fault` returns.
pub proof fn lemma_first_fault(reg: TypeRegistry, ty: Type, params: Seq<(String, Value)>)
    ensures
        match first_fault(reg, ty, params) {
            Some((k, f)) => 0 <= k < params.len() && param_fault(reg, ty, params[k].0@, params[k].1)
                == Some(f) && (forall|m: int|
                0 <= m < k ==> param_fault(reg, ty, (#[trigger] params[m]).0@, params[m].1)
                    is None),
            None => forall|m: int|
                0 <= m < params.len() ==> param_fault(reg, ty, (#[trigger] params[m]).0@,
                params[m].1) is None,
        },
    decreases params.len(),
{
    if params.len() != 0 && param_fault(reg, ty, params[0].0@, params[0].1) is None {
        lemma_first_fault(reg, ty, params.drop_first());
        assert forall|m: int| 1 <= m < params.len() implies params.drop_first()[m - 1]
            == params[m] by {}
    }
}

/// The default value of every property of a type, in table order.
pub open spec fn default_props(reg: TypeRegistry, ty: Type) -> Seq<Value> {
    reg.all_props(ty).map_values(|p: Property| p.spec.default)
}

/// Writes one accepted construct-time parameter into the property slots:
/// range validation may clamp the value.
pub open spec fn apply_param(
    reg: TypeRegistry,
    ty: Type,
    props: Seq<Value>,
    name: Seq<char>,
    v: Value,
) -> Seq<Value> {
    match find_prop_in(reg.all_props(ty), name) {
        Some(k) => props.update(k, reg.all_props(ty)[k].spec.clamp_spec(v)),
        None => props,
    }
}

/// Writes the construct-time parameters into the property slots, in order.
pub open spec fn apply_params(
    reg: TypeRegistry,
    ty: Type,
    props: Seq<Value>,
    params: Seq<(String, Value)>,
) -> Seq<Value>
    decreases params.len(),
{
    if params.len() == 0 {
        props
    } else {
        apply_params(
            reg,
            ty,
            apply_param(reg, ty, props, params[0].0@, params[0].1),
            params.drop_first(),
        )
    }
}

/// Folding one more parameter at the end.
pub proof fn lemma_apply_params_snoc(
    reg: TypeRegistry,
    ty: Type,
    props: Seq<Value>,
    params: Seq<(String, Value)>,
    p: (String, Value),
)
    ensures
        apply_params(reg, ty, props, params.push(p)) == apply_param(
            reg,
            ty,
            apply_params(reg, ty, props, params),
            p.0@,
            p.1,
        ),
    decreases params.len(),
{
    if params.len() == 0 {
        assert(params.push(p).drop_first() =~= params);
        assert(params.push(p)[0] == p);
        assert(apply_params(reg, ty, props, params.push(p)) == apply_params(
            reg,
            ty,
            apply_param(reg, ty, props, p.0@, p.1),
            params,
        ));
    } else {
        assert(params.push(p)[0] == params[0]);
        assert(params.push(p).drop_first() =~= params.drop_first().push(p));
        lemma_apply_params_snoc(
            reg,
            ty,
            apply_param(reg, ty, props, params[0].0@, params[0].1),
            params.drop_first(),
            p,
        );
    }
}

/// The post-construction hooks of the lineage, applied root first: each
/// class that marks a boolean property as its constructed flag has it set
/// to true.
pub open spec fn apply_marks(reg: TypeRegistry, full: Type, level: Type, props: Seq<Value>) -> Seq<
    Value,
>
    decreases crate::registry::type_rank(level),
{
    match level {
        Type::Other(i) => if i < reg.entries@.len() {
            let e = reg.entries@[i as int];
            let base = if !(e.parent is Invalid) && crate::registry::type_rank(e.parent) <= i {
                apply_marks(reg, full, e.parent, props)
            } else {
                props
            };
            match e.class.mark_constructed {
                Some(nm) => match find_prop_in(reg.all_props(full), nm@) {
                    Some(k) => if reg.all_props(full)[k].spec.value_type == Type::Bool {
                        base.update(k, Value::Bool(true))
                    } else {
                        base
                    },
                    None => base,
                },
                None => base,
            }
        } else {
            props
        },
        _ => props,
    }
}

/// Runs the post-construction hooks of the lineage, root first.
fn apply_marks_exec(reg: &TypeRegistry, full: Type, level: Type, props: &mut Vec<Value>)
    requires
        reg.wf(),
        old(props)@.len() == reg.all_props(full).len(),
    ensures
        final(props)@ == apply_marks(*reg, full, level, old(props)@),
        final(props)@.len() == old(props)@.len(),
    decreases crate::registry::type_rank(level),
{
    match level {
        Type::Other(i) => {
            if i >= reg.entries.len() {
                return;
            }
            proof {
                assert(reg.wf_entry(i as int));
            }
            if !matches!(reg.entries[i].parent, Type::Invalid) {
                let parent = reg.entries[i].parent;
                apply_marks_exec(reg, full, parent, props);
            }
            match &reg.entries[i].class.mark_constructed {
                Some(nm) => {
                    match reg.find_property(full, nm.as_str()) {
                        Some((k, p)) => {
                            proof {
                                lemma_find_prop_in(reg.all_props(full), nm@);
                            }
                            if p.spec.value_type == Type::Bool {
                                props[k] = Value::Bool(true);
                            }
                        },
                        None => {},
                    }
                },
                None => {},
            }
        },
        _ => {},
    }
}

impl Runtime {
    /// Constructs a new instance of an object type.  Every property slot of
    /// the lineage starts at its default; the given construct-time
    /// parameters are validated exactly as `set_property` validates a
    /// write, except that construct-only properties are still writable;
    /// then the lineage's post-construction hooks run, root first.  The
    /// caller owns the one reference of the fresh instance.
    pub fn new_object(&mut self, type_: Type, params: &Vec<(String, Value)>) -> (r: Result<
        Object,
        ObjectError,
    >)
        requires
            old(self).wf(),
        ensures
            final(self).wf(),
            final(self).registry == old(self).registry,
            final(self).journal == old(self).journal,
            final(self).program_name == old(self).program_name,
            !old(self).registry.is_object_type(type_) ==> final(self).instances@ == old(self).instances@ && crate::error::is_construction_failed(
                r,
                old(self).registry.name_of_type(type_),
            ),
            old(self).registry.is_object_type(type_) ==> match first_fault(
                old(self).registry,
                type_,
                params@,
            ) {
                Some((k, f)) => final(self).instances@ == old(self).instances@
                    && construct_fault_reported(
                    old(self).registry,
                    type_,
                    params@[k].0@,
                    params@[k].1,
                    f,
                    r,
                ),
                None => {
                    &&& r is Ok
                    &&& r->Ok_0 == (Object {
                        id: old(self).instances@.len() as usize,
                        ty: type_,
                    })
                    &&& final(self).instances@.len() == old(self).instances@.len() + 1
                    &&& final(self).instances@.drop_last() == old(self).instances@
                    &&& ({
                        let inst = final(self).instances@.last();
                        &&& inst.ty == type_
                        &&& inst.ref_count == 1
                        &&& inst.alive
                        &&& inst.floating == (match type_ {
                            Type::Other(i) => old(self).registry.entries@[i as int].class.initially_unowned,
                            _ => false,
                        })
                        &&& inst.handlers@ == Seq::<crate::signals::Handler>::empty()
                        &&& inst.next_handler_id == 0
                        &&& inst.props@ == apply_marks(
                            old(self).registry,
                            type_,
                            type_,
                            apply_params(
                                old(self).registry,
                                type_,
                                default_props(old(self).registry, type_),
                                params@,
                            ),
                        )
                    })
                    &&& final(self).valid_obj(r->Ok_0)
                },
            },
    {
        let ghost reg = self.registry;
        // Only object types can be instantiated.
        let instantiable = match type_ {
            Type::BaseObject => true,
            Type::Other(i) => i < self.registry.entries.len() && !self.registry.entries[i].iface,
            _ => false,
        };
        if !instantiable {
            return Err(ObjectError::ConstructionFailed { owner: self.registry.name(type_) });
        }
        // Validate every parameter before any state changes.
        proof {
            lemma_first_fault(reg, type_, params@);
        }
        let mut k: usize = 0;
        while k < params.len()
            invariant
                *self == *old(self),
                old(self).wf(),
                reg == self.registry,
                k <= params@.len(),
                old(self).registry.is_object_type(type_),
                forall|m: int|
                    0 <= m < k ==> param_fault(reg, type_, (#[trigger] params@[m]).0@,
                    params@[m].1) is None,
            decreases params@.len() - k,
        {
            let name = &params[k].0;
            let value = &params[k].1;
            proof {
                lemma_first_fault(reg, type_, params@);
            }
            match self.registry.find_property(type_, name.as_str()) {
                None => {
                    return Err(ObjectError::PropertyNotFound {
                        property: name.clone(),
                        owner: self.registry.name(type_),
                    });
                },
                Some((slot, p)) => {
                    proof {
                        lemma_find_prop_in(reg.all_props(type_), name@);
                    }
                    if !p.spec.flags.writable {
                        return Err(ObjectError::PropertyNotWritable {
                            property: name.clone(),
                            owner: self.registry.name(type_),
                        });
                    }
                    let vt = value.type_();
                    if !self.registry.is_a(vt, p.spec.value_type) {
                        return Err(ObjectError::TypeMismatch {
                            property: name.clone(),
                            owner: self.registry.name(type_),
                            expected: self.registry.name(p.spec.value_type),
                            got: self.registry.name(vt),
                        });
                    }
                    if !p.spec.in_range_check(value) && !p.spec.flags.lax_validation {
                        return Err(ObjectError::ValueOutOfRange {
                            property: name.clone(),
                            owner: self.registry.name(type_),
                        });
                    }
                },
            }
            k = k + 1;
        }
        // Build the property slots: defaults first.
        let table = self.registry.collect_props(type_);
        let mut props: Vec<Value> = Vec::new();
        let mut k: usize = 0;
        while k < table.len()
            invariant
                table@ == reg.all_props(type_),
                k <= table@.len(),
                props@ == reg.all_props(type_).subrange(0, k as int).map_values(
                    |p: Property| p.spec.default,
                ),
            decreases table@.len() - k,
        {
            props.push(value_clone(&table[k].spec.default));
            proof {
                assert(props@ =~= reg.all_props(type_).subrange(0, k + 1 as int).map_values(
                    |p: Property| p.spec.default,
                ));
            }
            k = k + 1;
        }
        proof {
            assert(reg.all_props(type_).subrange(0, reg.all_props(type_).len() as int) =~= reg
                .all_props(type_));
            assert(props@ =~= default_props(reg, type_));
        }
        // Write the parameters, in order.
        let ghost base = props@;
        let mut k: usize = 0;
        while k < params.len()
            invariant
                *self == *old(self),
                old(self).wf(),
                reg == self.registry,
                k <= params@.len(),
                base == default_props(reg, type_),
                props@.len() == reg.all_props(type_).len(),
                props@ == apply_params(reg, type_, base, params@.subrange(0, k as int)),
                forall|m: int|
                    0 <= m < params@.len() ==> param_fault(reg, type_, (
                    #[trigger] params@[m]).0@, params@[m].1) is None,
            decreases params@.len() - k,
        {
            let name = &params[k].0;
            let value = &params[k].1;
            match self.registry.find_property(type_, name.as_str()) {
                Some((slot, p)) => {
                    proof {
                        lemma_find_prop_in(reg.all_props(type_), name@);
                        reg.lemma_all_props_wf(type_);
                        assert(param_fault(reg, type_, params@[k as int].0@, params@[k as int].1)
                            is None);
                        if !(value is Object) && value.value_type() != p.spec.value_type {
                            reg.lemma_is_a_valid(value.value_type(), p.spec.value_type);
                        }
                    }
                    let (stored, _) = p.spec.validate(value);
                    props[slot] = stored;
                },
                None => {},
            }
            proof {
                assert(params@.subrange(0, k + 1 as int) =~= params@.subrange(0, k as int).push(
                    params@[k as int],
                ));
                lemma_apply_params_snoc(
                    reg,
                    type_,
                    base,
                    params@.subrange(0, k as int),
                    params@[k as int],
                );
            }
            k = k + 1;
        }
        proof {
            assert(params@.subrange(0, params@.len() as int) =~= params@);
        }
        // Run the post-construction hooks, root first.
        apply_marks_exec(&self.registry, type_, type_, &mut props);
        // The fresh instance owns one reference, floating where its class
        // says so.
        let floating = match type_ {
            Type::Other(i) => self.registry.entries[i].class.initially_unowned,
            _ => false,
        };
        let id = self.instances.len();
        self.instances.push(
            InstanceStruct {
                ty: type_,
                ref_count: 1,
                floating,
                alive: true,
                props,
                handlers: Vec::new(),
                next_handler_id: 0,
            },
        );
        proof {
            reg.lemma_all_props_wf(type_);
            assert forall|m: int| 0 <= m < base.len() implies reg.is_a_spec(
                (#[trigger] base[m]).value_type(),
                reg.all_props(type_)[m].spec.value_type,
            ) by {
                assert(base[m] == reg.all_props(type_)[m].spec.default);
                reg.lemma_is_a_reflexive(base[m].value_type());
            }
            lemma_apply_params_types(reg, type_, base, params@);
            lemma_apply_marks_types(
                reg,
                type_,
                type_,
                apply_params(reg, type_, base, params@),
            );
            self.registry.lemma_is_a_reflexive(type_);
            assert forall|j: int| 0 <= j < self.instances@.len() implies self.wf_instance(j) by {
                if j < old(self).instances@.len() {
                    assert(old(self).wf_instance(j));
                }
            }
        }
        Ok(Object { id, ty: type_ })
    }

    /// What reading a property yields: the stored value, tagged at the
    /// property's declared type — the type a freshly initialized container
    /// carries — if the property exists and is readable; nothing otherwise.
    pub open spec fn read_prop(self, obj: int, name: Seq<char>) -> Option<Value> {
        let ty = self.instances@[obj].ty;
        let table = self.registry.all_props(ty);
        match find_prop_in(table, name) {
            Some(k) => if table[k].spec.flags.readable {
                Some(crate::value::tag_at(self.instances@[obj].props@[k], table[k].spec.value_type))
            } else {
                None
            },
            None => None,
        }
    }

    /// Reads a property.  The property must exist on the instance's type or
    /// an ancestor and be readable; the stored value comes back.
    pub fn get_property(&self, o: &Object, name: &str) -> (r: Result<Value, ObjectError>)
        requires
            self.wf(),
            self.valid_obj(*o),
        ensures
            (r is Ok) == (self.read_prop(o.id as int, name@) is Some),
            r is Ok ==> Some(r->Ok_0) == self.read_prop(o.id as int, name@),
            ({
                let ty = self.instances@[o.id as int].ty;
                let table = self.registry.all_props(ty);
                match find_prop_in(table, name@) {
                    Some(k) => {
                        if table[k].spec.flags.readable {
                            r == Result::<Value, ObjectError>::Ok(
                                crate::value::tag_at(
                                    self.instances@[o.id as int].props@[k],
                                    table[k].spec.value_type,
                                ),
                            )
                        } else {
                            crate::error::is_property_not_readable(
                                r,
                                name@,
                                self.registry.name_of_type(ty),
                            )
                        }
                    },
                    None => crate::error::is_property_not_found(
                        r,
                        name@,
                        self.registry.name_of_type(ty),
                    ),
                }
            }),
    {
        let ty = self.instances[o.id].ty;
        proof {
            assert(self.wf_instance(o.id as int));
            lemma_find_prop_in(self.registry.all_props(ty), name@);
        }
        match self.registry.find_property(ty, name) {
            Some((k, p)) => {
                if p.spec.flags.readable {
                    Ok(crate::value::tag_value_at(&self.instances[o.id].props[k], p.spec.value_type))
                } else {
                    Err(ObjectError::PropertyNotReadable {
                        property: String::from_str(name),
                        owner: self.registry.name(ty),
                    })
                }
            },
            None => Err(ObjectError::PropertyNotFound {
                property: String::from_str(name),
                owner: self.registry.name(ty),
            }),
        }
    }
}

impl Runtime {
    /// Checks that the instance has a property of the given name — and,
    /// when a type is supplied, that the property's declared value type is
    /// exactly that type.
    pub fn has_property(&self, o: &Object, property_name: &str, type_: Option<Type>) -> (r: Result<
        (),
        ObjectError,
    >)
        requires
            self.wf(),
            self.valid_obj(*o),
        ensures
            ({
                let ty = self.instances@[o.id as int].ty;
                let table = self.registry.all_props(ty);
                match find_prop_in(table, property_name@) {
                    Some(k) => match type_ {
                        None => r is Ok,
                        Some(t) => if table[k].spec.value_type == t {
                            r is Ok
                        } else {
                            crate::error::is_operation_failed(r)
                        },
                    },
                    None => crate::error::is_property_not_found(
                        r,
                        property_name@,
                        self.registry.name_of_type(ty),
                    ),
                }
            }),
    {
        let ty = self.instances[o.id].ty;
        match self.registry.find_property(ty, property_name) {
            Some((_, p)) => match type_ {
                None => Ok(()),
                Some(t) => {
                    if p.spec.value_type == t {
                        Ok(())
                    } else {
                        Err(ObjectError::OperationFailed {
                            message: String::from_str("property has another value type"),
                        })
                    }
                },
            },
            None => Err(ObjectError::PropertyNotFound {
                property: String::from_str(property_name),
                owner: self.registry.name(ty),
            }),
        }
    }

    /// The declared value type of a property of the instance's type, if the
    /// property exists.
    pub fn get_property_type(&self, o: &Object, property_name: &str) -> (r: Option<Type>)
        requires
            self.wf(),
            self.valid_obj(*o),
        ensures
            ({
                let table = self.registry.all_props(self.instances@[o.id as int].ty);
                match find_prop_in(table, property_name@) {
                    Some(k) => r == Some(table[k].spec.value_type),
                    None => r is None,
                }
            }),
    {
        let ty = self.instances[o.id].ty;
        match self.registry.find_property(ty, property_name) {
            Some((_, p)) => Some(p.spec.value_type),
            None => None,
        }
    }

    /// Every property of the instance's type, ancestors' first: the full
    /// descriptor table a subclass query sees.
    pub fn list_properties(&self, o: &Object) -> (r: Vec<Property>)
        requires
            self.wf(),
            self.valid_obj(*o),
        ensures
            r@ == self.registry.all_props(self.instances@[o.id as int].ty),
    {
        let ty = self.instances[o.id].ty;
        self.registry.collect_props(ty)
    }

    /// Finds a property of the instance's type by name.
    pub fn find_property(&self, o: &Object, property_name: &str) -> (r: Option<Property>)
        requires
            self.wf(),
            self.valid_obj(*o),
        ensures
            ({
                let table = self.registry.all_props(self.instances@[o.id as int].ty);
                match find_prop_in(table, property_name@) {
                    Some(k) => r == Some(table[k]),
                    None => r is None,
                }
            }),
    {
        let ty = self.instances[o.id].ty;
        match self.registry.find_property(ty, property_name) {
            Some((_, p)) => Some(p),
            None => None,
        }
    }
}

/// The error a rejected construct-time parameter produces.
pub open spec fn construct_fault_reported(
    reg: TypeRegistry,
    ty: Type,
    name: Seq<char>,
    v: Value,
    f: ParamFault,
    r: Result<Object, ObjectError>,
) -> bool {
    match f {
        ParamFault::NotFound => crate::error::is_property_not_found(
            r,
            name,
            reg.name_of_type(ty),
        ),
        ParamFault::NotWritable => crate::error::is_property_not_writable(
            r,
            name,
            reg.name_of_type(ty),
        ),
        ParamFault::Mismatch => match find_prop_in(reg.all_props(ty), name) {
            Some(k) => crate::error::is_type_mismatch(
                r,
                name,
                reg.name_of_type(ty),
                reg.name_of_type(reg.all_props(ty)[k].spec.value_type),
                reg.name_of_type(v.value_type()),
            ),
            None => false,
        },
        ParamFault::OutOfRange => crate::error::is_value_out_of_range(
            r,
            name,
            reg.name_of_type(ty),
        ),
    }
}

/// Writing accepted parameters keeps every slot within its declared type.
proof fn lemma_apply_params_types(
    reg: TypeRegistry,
    ty: Type,
    props: Seq<Value>,
    params: Seq<(String, Value)>,
)
    requires
        reg.wf(),
        props.len() == reg.all_props(ty).len(),
        forall|k: int|
            0 <= k < props.len() ==> reg.is_a_spec(
                (#[trigger] props[k]).value_type(),
                reg.all_props(ty)[k].spec.value_type,
            ),
        forall|m: int|
            0 <= m < params.len() ==> param_fault(reg, ty, (#[trigger] params[m]).0@, params[m].1)
                is None,
    ensures
        apply_params(reg, ty, props, params).len() == props.len(),
        forall|k: int|
            0 <= k < props.len() ==> reg.is_a_spec(
                (#[trigger] apply_params(reg, ty, props, params)[k]).value_type(),
                reg.all_props(ty)[k].spec.value_type,
            ),
    decreases params.len(),
{
    if params.len() != 0 {
        let name = params[0].0@;
        let v = params[0].1;
        let stepped = apply_param(reg, ty, props, name, v);
        lemma_find_prop_in(reg.all_props(ty), name);
        assert(stepped.len() == props.len());
        assert forall|k: int|
            0 <= k < props.len() implies reg.is_a_spec(
            (#[trigger] stepped[k]).value_type(),
            reg.all_props(ty)[k].spec.value_type,
        ) by {
            match find_prop_in(reg.all_props(ty), name) {
                Some(m) => {
                    if k == m {
                        assert(param_fault(reg, ty, params[0].0@, params[0].1) is None);
                        assert(reg.all_props(ty)[m].spec.clamp_spec(v).value_type()
                            == v.value_type());
                    }
                },
                None => {},
            }
        }
        assert forall|m: int|
            0 <= m < params.drop_first().len() implies param_fault(
            reg,
            ty,
            (#[trigger] params.drop_first()[m]).0@,
            params.drop_first()[m].1,
        ) is None by {
            assert(params.drop_first()[m] == params[m + 1]);
        }
        lemma_apply_params_types(reg, ty, stepped, params.drop_first());
    }
}

/// The post-construction hooks keep every slot within its declared type.
proof fn lemma_apply_marks_types(reg: TypeRegistry, full: Type, level: Type, props: Seq<Value>)
    requires
        reg.wf(),
        props.len() == reg.all_props(full).len(),
        forall|k: int|
            0 <= k < props.len() ==> reg.is_a_spec(
                (#[trigger] props[k]).value_type(),
                reg.all_props(full)[k].spec.value_type,
            ),
    ensures
        apply_marks(reg, full, level, props).len() == props.len(),
        forall|k: int|
            0 <= k < props.len() ==> reg.is_a_spec(
                (#[trigger] apply_marks(reg, full, level, props)[k]).value_type(),
                reg.all_props(full)[k].spec.value_type,
            ),
    decreases crate::registry::type_rank(level),
{
    match level {
        Type::Other(i) => {
            if i < reg.entries@.len() {
                let e = reg.entries@[i as int];
                if !(e.parent is Invalid) && crate::registry::type_rank(e.parent) <= i {
                    lemma_apply_marks_types(reg, full, e.parent, props);
                }
                match e.class.mark_constructed {
                    Some(nm) => {
                        lemma_find_prop_in(reg.all_props(full), nm@);
                        reg.lemma_is_a_reflexive(Type::Bool);
                    },
                    None => {},
                }
            }
        },
        _ => {},
    }
}

/// The token names an instance that exists and is still alive.
pub open spec fn token_live(rt: Runtime, id: SignalHandlerId) -> bool {
    id.object < rt.instances@.len() && rt.instances@[id.object as int].alive
}

/// The token names a handler that is still connected.
pub open spec fn token_connected(rt: Runtime, id: SignalHandlerId) -> bool {
    &&& id.object < rt.instances@.len()
    &&& (match handler_by_id(rt.instances@[id.object as int].handlers@, id.raw) {
        Some(j) => rt.instances@[id.object as int].handlers@[j].connected,
        None => false,
    })
}

/// The token names a handler that exists but was disconnected.
pub open spec fn token_disconnected(rt: Runtime, id: SignalHandlerId) -> bool {
    &&& id.object < rt.instances@.len()
    &&& (match handler_by_id(rt.instances@[id.object as int].handlers@, id.raw) {
        Some(j) => !rt.instances@[id.object as int].handlers@[j].connected,
        None => false,
    })
}

/// A connected, unblocked handler of the named signal at the given stage.
pub open spec fn handler_matches_signal(h: Handler, sig: Seq<char>, after: bool) -> bool {
    &&& h.connected
    &&& h.block_count == 0
    &&& h.after == after
    &&& (match h.target {
        HandlerTarget::Signal(s) => s@ == sig,
        _ => false,
    })
}

/// A connected, unblocked handler of the change notification for the given
/// property (or for all properties).
pub open spec fn handler_matches_notify(h: Handler, prop: Seq<char>) -> bool {
    &&& h.connected
    &&& h.block_count == 0
    &&& (match h.target {
        HandlerTarget::Notify(None) => true,
        HandlerTarget::Notify(Some(p)) => p@ == prop,
        _ => false,
    })
}

/// The tokens of the matching signal handlers, in connection order.
pub open spec fn matching_signal_ids(hs: Seq<Handler>, sig: Seq<char>, after: bool) -> Seq<u64>
    decreases hs.len(),
{
    if hs.len() == 0 {
        Seq::<u64>::empty()
    } else {
        (if handler_matches_signal(hs[0], sig, after) {
            seq![hs[0].id]
        } else {
            Seq::<u64>::empty()
        }) + matching_signal_ids(hs.drop_first(), sig, after)
    }
}

/// The tokens of the matching notification handlers, in connection order.
pub open spec fn matching_notify_ids(hs: Seq<Handler>, prop: Seq<char>) -> Seq<u64>
    decreases hs.len(),
{
    if hs.len() == 0 {
        Seq::<u64>::empty()
    } else {
        (if handler_matches_notify(hs[0], prop) {
            seq![hs[0].id]
        } else {
            Seq::<u64>::empty()
        }) + matching_notify_ids(hs.drop_first(), prop)
    }
}

/// Collecting one more handler at the end.
pub proof fn lemma_matching_signal_snoc(hs: Seq<Handler>, h: Handler, sig: Seq<char>, after: bool)
    ensures
        matching_signal_ids(hs.push(h), sig, after) == matching_signal_ids(hs, sig, after) + (
        if handler_matches_signal(h, sig, after) {
            seq![h.id]
        } else {
            Seq::<u64>::empty()
        }),
    decreases hs.len(),
{
    if hs.len() == 0 {
        assert(hs.push(h).drop_first() =~= hs);
        assert(hs.push(h)[0] == h);
        assert(matching_signal_ids(hs, sig, after) + (if handler_matches_signal(h, sig, after) {
            seq![h.id]
        } else {
            Seq::<u64>::empty()
        }) =~= (if handler_matches_signal(h, sig, after) {
            seq![h.id]
        } else {
            Seq::<u64>::empty()
        }) + matching_signal_ids(Seq::<Handler>::empty(), sig, after));
    } else {
        assert(hs.push(h)[0] == hs[0]);
        assert(hs.push(h).drop_first() =~= hs.drop_first().push(h));
        lemma_matching_signal_snoc(hs.drop_first(), h, sig, after);
        assert(((if handler_matches_signal(hs[0], sig, after) {
            seq![hs[0].id]
        } else {
            Seq::<u64>::empty()
        }) + (matching_signal_ids(hs.drop_first(), sig, after) + (if handler_matches_signal(
            h,
            sig,
            after,
        ) {
            seq![h.id]
        } else {
            Seq::<u64>::empty()
        }))) =~= (matching_signal_ids(hs, sig, after) + (if handler_matches_signal(
            h,
            sig,
            after,
        ) {
            seq![h.id]
        } else {
            Seq::<u64>::empty()
        })));
    }
}

/// Collecting one more handler at the end.
pub proof fn lemma_matching_notify_snoc(hs: Seq<Handler>, h: Handler, prop: Seq<char>)
    ensures
        matching_notify_ids(hs.push(h), prop) == matching_notify_ids(hs, prop) + (
        if handler_matches_notify(h, prop) {
            seq![h.id]
        } else {
            Seq::<u64>::empty()
        }),
    decreases hs.len(),
{
    if hs.len() == 0 {
        assert(hs.push(h).drop_first() =~= hs);
        assert(hs.push(h)[0] == h);
        assert(matching_notify_ids(hs, prop) + (if handler_matches_notify(h, prop) {
            seq![h.id]
        } else {
            Seq::<u64>::empty()
        }) =~= (if handler_matches_notify(h, prop) {
            seq![h.id]
        } else {
            Seq::<u64>::empty()
        }) + matching_notify_ids(Seq::<Handler>::empty(), prop));
    } else {
        assert(hs.push(h)[0] == hs[0]);
        assert(hs.push(h).drop_first() =~= hs.drop_first().push(h));
        lemma_matching_notify_snoc(hs.drop_first(), h, prop);
        assert(((if handler_matches_notify(hs[0], prop) {
            seq![hs[0].id]
        } else {
            Seq::<u64>::empty()
        }) + (matching_notify_ids(hs.drop_first(), prop) + (if handler_matches_notify(h, prop) {
            seq![h.id]
        } else {
            Seq::<u64>::empty()
        }))) =~= (matching_notify_ids(hs, prop) + (if handler_matches_notify(h, prop) {
            seq![h.id]
        } else {
            Seq::<u64>::empty()
        })));
    }
}

/// The position of the handler with the given token, if any.
pub open spec fn handler_by_id(hs: Seq<Handler>, raw: u64) -> Option<int>
    decreases hs.len(),
{
    if hs.len() == 0 {
        None
    } else if hs[0].id == raw {
        Some(0)
    } else {
        match handler_by_id(hs.drop_first(), raw) {
            Some(j) => Some(j + 1),
            None => None,
        }
    }
}

/// Updating a handler in place (same token) does not move any token:
/// lookups by token are unchanged.
pub proof fn lemma_handler_by_id_update(hs: Seq<Handler>, j: int, h2: Handler, raw: u64)
    requires
        0 <= j < hs.len(),
        h2.id == hs[j].id,
    ensures
        handler_by_id(hs.update(j, h2), raw) == handler_by_id(hs, raw),
    decreases hs.len(),
{
    let hs2 = hs.update(j, h2);
    if j == 0 {
        assert(hs2[0].id == hs[0].id);
        assert(hs2.drop_first() =~= hs.drop_first());
    } else {
        assert(hs2[0] == hs[0]);
        assert(hs2.drop_first() =~= hs.drop_first().update(j - 1, h2));
        lemma_handler_by_id_update(hs.drop_first(), j - 1, h2, raw);
    }
}

/// What `handler_by_id` returns.
pub proof fn lemma_handler_by_id(hs: Seq<Handler>, raw: u64)
    ensures
        match handler_by_id(hs, raw) {
            Some(j) => 0 <= j < hs.len() && hs[j].id == raw && (forall|k: int|
                0 <= k < j ==> hs[k].id != raw),
            None => forall|k: int| 0 <= k < hs.len() ==> hs[k].id != raw,
        },
    decreases hs.len(),
{
    if hs.len() != 0 && hs[0].id != raw {
        lemma_handler_by_id(hs.drop_first(), raw);
        assert forall|k: int| 1 <= k < hs.len() implies hs.drop_first()[k - 1] == hs[k] by {}
    }
}

impl Runtime {
    /// Snapshots the tokens of the handlers that would run for a signal
    /// emission at the given stage.
    fn collect_signal_ids(&self, obj: usize, sig: &str, after: bool) -> (r: Vec<u64>)
        requires
            obj < self.instances@.len(),
        ensures
            r@ == matching_signal_ids(self.instances@[obj as int].handlers@, sig@, after),
    {
        let hs = &self.instances[obj].handlers;
        let mut r: Vec<u64> = Vec::new();
        let mut k: usize = 0;
        while k < hs.len()
            invariant
                hs == self.instances@[obj as int].handlers,
                k <= hs@.len(),
                r@ == matching_signal_ids(hs@.subrange(0, k as int), sig@, after),
            decreases hs@.len() - k,
        {
            let h = &hs[k];
            let matches_here = h.connected && h.block_count == 0 && h.after == after && (match &h
                .target {
                HandlerTarget::Signal(s) => str_eq(s.as_str(), sig),
                _ => false,
            });
            if matches_here {
                r.push(h.id);
            }
            proof {
                assert(hs@.subrange(0, k + 1 as int) =~= hs@.subrange(0, k as int).push(
                    hs@[k as int],
                ));
                lemma_matching_signal_snoc(hs@.subrange(0, k as int), hs@[k as int], sig@, after);
                if matches_here {
                    assert(r@ =~= matching_signal_ids(hs@.subrange(0, k as int), sig@, after)
                        + seq![hs@[k as int].id]);
                } else {
                    assert(r@ =~= matching_signal_ids(hs@.subrange(0, k as int), sig@, after)
                        + Seq::<u64>::empty());
                }
            }
            k = k + 1;
        }
        proof {
            assert(hs@.subrange(0, hs@.len() as int) =~= hs@);
        }
        r
    }

    /// Snapshots the tokens of the handlers that would run for a change
    /// notification of the given property.
    fn collect_notify_ids(&self, obj: usize, prop: &str) -> (r: Vec<u64>)
        requires
            obj < self.instances@.len(),
        ensures
            r@ == matching_notify_ids(self.instances@[obj as int].handlers@, prop@),
    {
        let hs = &self.instances[obj].handlers;
        let mut r: Vec<u64> = Vec::new();
        let mut k: usize = 0;
        while k < hs.len()
            invariant
                hs == self.instances@[obj as int].handlers,
                k <= hs@.len(),
                r@ == matching_notify_ids(hs@.subrange(0, k as int), prop@),
            decreases hs@.len() - k,
        {
            let h = &hs[k];
            let matches_here = h.connected && h.block_count == 0 && (match &h.target {
                HandlerTarget::Notify(None) => true,
                HandlerTarget::Notify(Some(p)) => str_eq(p.as_str(), prop),
                _ => false,
            });
            if matches_here {
                r.push(h.id);
            }
            proof {
                assert(hs@.subrange(0, k + 1 as int) =~= hs@.subrange(0, k as int).push(
                    hs@[k as int],
                ));
                lemma_matching_notify_snoc(hs@.subrange(0, k as int), hs@[k as int], prop@);
                if matches_here {
                    assert(r@ =~= matching_notify_ids(hs@.subrange(0, k as int), prop@)
                        + seq![hs@[k as int].id]);
                } else {
                    assert(r@ =~= matching_notify_ids(hs@.subrange(0, k as int), prop@)
                        + Seq::<u64>::empty());
                }
            }
            k = k + 1;
        }
        proof {
            assert(hs@.subrange(0, hs@.len() as int) =~= hs@);
        }
        r
    }

    /// Finds a handler by token on an instance.
    fn find_handler(&self, obj: usize, raw: u64) -> (r: Option<usize>)
        requires
            obj < self.instances@.len(),
        ensures
            (handler_by_id(self.instances@[obj as int].handlers@, raw) is Some) == (r is Some),
            r is Some ==> handler_by_id(self.instances@[obj as int].handlers@, raw) == Some(
                r->0 as int,
            ),
    {
        let hs = &self.instances[obj].handlers;
        proof {
            lemma_handler_by_id(hs@, raw);
        }
        let mut k: usize = 0;
        while k < hs.len()
            invariant
                hs == self.instances@[obj as int].handlers,
                k <= hs@.len(),
                forall|m: int| 0 <= m < k ==> hs@[m].id != raw,
            decreases hs@.len() - k,
        {
            if hs[k].id == raw {
                proof {
                    lemma_handler_by_id(hs@, raw);
                }
                return Some(k);
            }
            k = k + 1;
        }
        None
    }

    /// Connects a handler to a named signal of the instance's type, before
    /// or after the class default handler, and returns the token that scopes
    /// the connection to this instance.
    pub fn connect(&mut self, o: &Object, signal_name: &str, after: bool, behavior:
        HandlerBehavior) -> (r: Result<SignalHandlerId, ObjectError>)
        requires
            old(self).wf(),
            old(self).valid_obj(*o),
            old(self).instances@[o.id as int].next_handler_id < u64::MAX,
        ensures
            final(self).wf(),
            final(self).registry == old(self).registry,
            final(self).journal == old(self).journal,
            final(self).program_name == old(self).program_name,
            ({
                let ty = old(self).instances@[o.id as int].ty;
                match crate::registry::find_signal_in(
                    old(self).registry.all_signals(ty),
                    signal_name@,
                ) {
                    Some(_) => {
                        let pre = old(self).instances@[o.id as int];
                        &&& r is Ok
                        &&& r->Ok_0 == (SignalHandlerId { object: o.id, raw: pre.next_handler_id })
                        &&& same_except(old(self).instances@, final(self).instances@, o.id as int)
                        &&& ({
                            let post = final(self).instances@[o.id as int];
                            &&& post.handlers@ == pre.handlers@.push(
                                Handler {
                                    id: pre.next_handler_id,
                                    target: HandlerTarget::Signal(post.handlers@.last().target->Signal_0),
                                    after,
                                    block_count: 0,
                                    connected: true,
                                    behavior,
                                },
                            )
                            &&& post.handlers@.last().target->Signal_0@ == signal_name@
                            &&& post.next_handler_id == pre.next_handler_id + 1
                            &&& post.ty == pre.ty
                            &&& post.props == pre.props
                            &&& post.ref_count == pre.ref_count
                            &&& post.alive == pre.alive
                            &&& post.floating == pre.floating
                        })
                    },
                    None => final(self).instances@ == old(self).instances@
                        && crate::error::is_signal_not_found(
                        r,
                        signal_name@,
                        old(self).registry.name_of_type(ty),
                    ),
                }
            }),
    {
        let ty = self.instances[o.id].ty;
        match self.registry.find_signal(ty, signal_name) {
            None => Err(ObjectError::SignalNotFound {
                signal: String::from_str(signal_name),
                owner: self.registry.name(ty),
            }),
            Some(_) => {
                let raw = self.instances[o.id].next_handler_id;
                let h = Handler {
                    id: raw,
                    target: HandlerTarget::Signal(String::from_str(signal_name)),
                    after,
                    block_count: 0,
                    connected: true,
                    behavior,
                };
                let inst = &mut self.instances[o.id];
                inst.handlers.push(h);
                inst.next_handler_id = inst.next_handler_id + 1;
                proof {
                    assert forall|j: int| 0 <= j < self.instances@.len()
                        implies self.wf_instance(j) by {
                        assert(old(self).wf_instance(j));
                    }
                }
                Ok(SignalHandlerId { object: o.id, raw })
            },
        }
    }

    /// Connects a handler to change notification: for one property, or for
    /// every property of the instance.
    pub fn connect_notify(&mut self, o: &Object, name: Option<&str>, behavior: HandlerBehavior)
        -> (r: SignalHandlerId)
        requires
            old(self).wf(),
            old(self).valid_obj(*o),
            old(self).instances@[o.id as int].next_handler_id < u64::MAX,
        ensures
            final(self).wf(),
            final(self).registry == old(self).registry,
            final(self).journal == old(self).journal,
            final(self).program_name == old(self).program_name,
            same_except(old(self).instances@, final(self).instances@, o.id as int),
            ({
                let pre = old(self).instances@[o.id as int];
                let post = final(self).instances@[o.id as int];
                &&& r == (SignalHandlerId { object: o.id, raw: pre.next_handler_id })
                &&& post.handlers@.len() == pre.handlers@.len() + 1
                &&& post.handlers@.drop_last() == pre.handlers@
                &&& ({
                    let h = post.handlers@.last();
                    &&& h.id == pre.next_handler_id
                    &&& (match (h.target, name) {
                        (HandlerTarget::Notify(Some(p)), Some(nm)) => p@ == nm@,
                        (HandlerTarget::Notify(None), None) => true,
                        _ => false,
                    })
                    &&& h.after == false
                    &&& h.block_count == 0
                    &&& h.connected
                    &&& h.behavior == behavior
                })
                &&& post.next_handler_id == pre.next_handler_id + 1
                &&& post.ty == pre.ty
                &&& post.props == pre.props
                &&& post.ref_count == pre.ref_count
                &&& post.alive == pre.alive
                &&& post.floating == pre.floating
            }),
    {
        let raw = self.instances[o.id].next_handler_id;
        let target = match name {
            Some(nm) => HandlerTarget::Notify(Some(String::from_str(nm))),
            None => HandlerTarget::Notify(None),
        };
        let h = Handler { id: raw, target, after: false, block_count: 0, connected: true, behavior };
        let inst = &mut self.instances[o.id];
        inst.handlers.push(h);
        inst.next_handler_id = inst.next_handler_id + 1;
        proof {
            assert forall|j: int| 0 <= j < self.instances@.len() implies self.wf_instance(j) by {
                assert(old(self).wf_instance(j));
            }
        }
        SignalHandlerId { object: o.id, raw }
    }

    /// Permanently removes a connected handler.  The token must name a
    /// still-connected handler of a live instance; afterwards the token is
    /// dead and disconnecting it again is an error.
    pub fn disconnect(&mut self, id: SignalHandlerId) -> (r: Result<(), ObjectError>)
        requires
            old(self).wf(),
        ensures
            final(self).wf(),
            final(self).registry == old(self).registry,
            final(self).journal == old(self).journal,
            final(self).program_name == old(self).program_name,
            !token_live(*old(self), id) ==> crate::error::is_operation_failed(r) && final(self).instances@ == old(self).instances@,
            token_live(*old(self), id) ==> match handler_by_id(
                old(self).instances@[id.object as int].handlers@,
                id.raw,
            ) {
                Some(j) => {
                    if old(self).instances@[id.object as int].handlers@[j].connected {
                        let pre = old(self).instances@[id.object as int];
                        let post = final(self).instances@[id.object as int];
                        &&& r is Ok
                        &&& same_except(
                            old(self).instances@,
                            final(self).instances@,
                            id.object as int,
                        )
                        &&& post.handlers@ == pre.handlers@.update(
                            j,
                            Handler { connected: false, ..pre.handlers@[j] },
                        )
                        &&& post.ty == pre.ty
                        &&& post.props == pre.props
                        &&& post.ref_count == pre.ref_count
                        &&& post.alive == pre.alive
                        &&& post.floating == pre.floating
                        &&& post.next_handler_id == pre.next_handler_id
                    } else {
                        crate::error::is_operation_failed(r) && final(self).instances@ == old(self).instances@
                    }
                },
                None => crate::error::is_operation_failed(r) && final(self).instances@ == old(self).instances@,
            },
    {
        if id.object >= self.instances.len() || !self.instances[id.object].alive {
            proof {
                assert(!token_live(*old(self), id));
            }
            return Err(ObjectError::OperationFailed {
                message: String::from_str("invalid handler token"),
            });
        }
        match self.find_handler(id.object, id.raw) {
            Some(j) => {
                proof {
                    lemma_handler_by_id(self.instances@[id.object as int].handlers@, id.raw);
                }
                if self.instances[id.object].handlers[j].connected {
                    let inst = &mut self.instances[id.object];
                    let h = &mut inst.handlers[j];
                    h.connected = false;
                    proof {
                        let pre = old(self).instances@[id.object as int];
                        assert(self.instances@[id.object as int].handlers@ == pre.handlers@.update(
                            j as int,
                            Handler { connected: false, ..pre.handlers@[j as int] },
                        ));
                        assert(same_except(
                            old(self).instances@,
                            self.instances@,
                            id.object as int,
                        ));
                        assert(self.instances@[id.object as int].next_handler_id
                            == pre.next_handler_id);
                        assert forall|m: int| 0 <= m < self.instances@.len()
                            implies self.wf_instance(m) by {
                            assert(old(self).wf_instance(m));
                        }
                    }
                    Ok(())
                } else {
                    Err(ObjectError::OperationFailed {
                        message: String::from_str("handler already disconnected"),
                    })
                }
            },
            None => Err(ObjectError::OperationFailed {
                message: String::from_str("invalid handler token"),
            }),
        }
    }

    /// Blocks a connected handler: while blocked it does not participate in
    /// emission.  Blocks nest.
    pub fn block_signal(&mut self, id: &SignalHandlerId) -> (r: Result<(), ObjectError>)
        requires
            old(self).wf(),
        ensures
            final(self).wf(),
            final(self).registry == old(self).registry,
            final(self).journal == old(self).journal,
            final(self).program_name == old(self).program_name,
            ({
                let live = id.object < old(self).instances@.len() && old(self).instances@[id.object
                    as int].alive;
                if live {
                    match handler_by_id(old(self).instances@[id.object as int].handlers@, id.raw) {
                        Some(j) => {
                            let pre = old(self).instances@[id.object as int];
                            if pre.handlers@[j].connected && pre.handlers@[j].block_count
                                < u64::MAX {
                                &&& r is Ok
                                &&& same_except(
                                    old(self).instances@,
                                    final(self).instances@,
                                    id.object as int,
                                )
                                &&& ({
                                    let post = final(self).instances@[id.object as int];
                                    &&& post.handlers@ == pre.handlers@.update(
                                        j,
                                        Handler {
                                            block_count: (pre.handlers@[j].block_count + 1) as u64,
                                            ..pre.handlers@[j]
                                        },
                                    )
                                    &&& post.ty == pre.ty
                                    &&& post.props == pre.props
                                    &&& post.ref_count == pre.ref_count
                                    &&& post.alive == pre.alive
                                    &&& post.floating == pre.floating
                                    &&& post.next_handler_id == pre.next_handler_id
                                })
                            } else {
                                crate::error::is_operation_failed(r) && final(self).instances@
                                    == old(self).instances@
                            }
                        },
                        None => crate::error::is_operation_failed(r) && final(self).instances@
                            == old(self).instances@,
                    }
                } else {
                    crate::error::is_operation_failed(r) && final(self).instances@ == old(self).instances@
                }
            }),
    {
        if id.object >= self.instances.len() || !self.instances[id.object].alive {
            return Err(ObjectError::OperationFailed {
                message: String::from_str("invalid handler token"),
            });
        }
        match self.find_handler(id.object, id.raw) {
            Some(j) => {
                proof {
                    lemma_handler_by_id(self.instances@[id.object as int].handlers@, id.raw);
                }
                if self.instances[id.object].handlers[j].connected
                    && self.instances[id.object].handlers[j].block_count < u64::MAX {
                    let inst = &mut self.instances[id.object];
                    let h = &mut inst.handlers[j];
                    h.block_count = h.block_count + 1;
                    proof {
                        assert forall|m: int| 0 <= m < self.instances@.len()
                            implies self.wf_instance(m) by {
                            assert(old(self).wf_instance(m));
                        }
                    }
                    Ok(())
                } else {
                    Err(ObjectError::OperationFailed {
                        message: String::from_str("handler cannot be blocked"),
                    })
                }
            },
            None => Err(ObjectError::OperationFailed {
                message: String::from_str("invalid handler token"),
            }),
        }
    }

    /// Unblocks a blocked handler, undoing one block.
    pub fn unblock_signal(&mut self, id: &SignalHandlerId) -> (r: Result<(), ObjectError>)
        requires
            old(self).wf(),
        ensures
            final(self).wf(),
            final(self).registry == old(self).registry,
            final(self).journal == old(self).journal,
            final(self).program_name == old(self).program_name,
            ({
                let live = id.object < old(self).instances@.len() && old(self).instances@[id.object
                    as int].alive;
                if live {
                    match handler_by_id(old(self).instances@[id.object as int].handlers@, id.raw) {
                        Some(j) => {
                            let pre = old(self).instances@[id.object as int];
                            if pre.handlers@[j].connected && pre.handlers@[j].block_count > 0 {
                                &&& r is Ok
                                &&& same_except(
                                    old(self).instances@,
                                    final(self).instances@,
                                    id.object as int,
                                )
                                &&& ({
                                    let post = final(self).instances@[id.object as int];
                                    &&& post.handlers@ == pre.handlers@.update(
                                        j,
                                        Handler {
                                            block_count: (pre.handlers@[j].block_count - 1) as u64,
                                            ..pre.handlers@[j]
                                        },
                                    )
                                    &&& post.ty == pre.ty
                                    &&& post.props == pre.props
                                    &&& post.ref_count == pre.ref_count
                                    &&& post.alive == pre.alive
                                    &&& post.floating == pre.floating
                                    &&& post.next_handler_id == pre.next_handler_id
                                })
                            } else {
                                crate::error::is_operation_failed(r) && final(self).instances@
                                    == old(self).instances@
                            }
                        },
                        None => crate::error::is_operation_failed(r) && final(self).instances@
                            == old(self).instances@,
                    }
                } else {
                    crate::error::is_operation_failed(r) && final(self).instances@ == old(self).instances@
                }
            }),
    {
        if id.object >= self.instances.len() || !self.instances[id.object].alive {
            return Err(ObjectError::OperationFailed {
                message: String::from_str("invalid handler token"),
            });
        }
        match self.find_handler(id.object, id.raw) {
            Some(j) => {
                proof {
                    lemma_handler_by_id(self.instances@[id.object as int].handlers@, id.raw);
                }
                if self.instances[id.object].handlers[j].connected
                    && self.instances[id.object].handlers[j].block_count > 0 {
                    let inst = &mut self.instances[id.object];
                    let h = &mut inst.handlers[j];
                    h.block_count = h.block_count - 1;
                    proof {
                        assert forall|m: int| 0 <= m < self.instances@.len()
                            implies self.wf_instance(m) by {
                            assert(old(self).wf_instance(m));
                        }
                    }
                    Ok(())
                } else {
                    Err(ObjectError::OperationFailed {
                        message: String::from_str("handler is not blocked"),
                    })
                }
            },
            None => Err(ObjectError::OperationFailed {
                message: String::from_str("invalid handler token"),
            }),
        }
    }
}

/// The fuel that bounds nested re-entrancy: a handler that emits or writes
/// properties may nest this many levels deep before the runtime reports a
/// failure instead of recursing further.
pub const DISPATCH_FUEL: u64 = 16;

/// What dispatch never touches: the registry, the identity, count and
/// liveness of every instance, the connected handlers, and the property
/// tables' shape.  The journal only grows.
pub open spec fn dispatch_frame(pre: Runtime, post: Runtime) -> bool {
    &&& post.registry == pre.registry
    &&& post.program_name == pre.program_name
    &&& post.instances@.len() == pre.instances@.len()
    &&& (forall|j: int|
        0 <= j < pre.instances@.len() ==> {
            let a = pre.instances@[j];
            let b = #[trigger] post.instances@[j];
            &&& b.ty == a.ty
            &&& b.ref_count == a.ref_count
            &&& b.alive == a.alive
            &&& b.floating == a.floating
            &&& b.handlers@ == a.handlers@
            &&& b.next_handler_id == a.next_handler_id
            &&& b.props@.len() == a.props@.len()
        })
    &&& pre.journal@.len() <= post.journal@.len()
    &&& post.journal@.subrange(0, pre.journal@.len() as int) == pre.journal@
}

/// The frame composes across consecutive dispatch steps.
pub proof fn lemma_dispatch_frame_trans(a: Runtime, b: Runtime, c: Runtime)
    requires
        dispatch_frame(a, b),
        dispatch_frame(b, c),
    ensures
        dispatch_frame(a, c),
{
    let al = a.journal@.len() as int;
    let bl = b.journal@.len() as int;
    assert forall|i: int| 0 <= i < al implies c.journal@.subrange(0, al)[i] == a.journal@[i] by {
        assert(c.journal@.subrange(0, bl)[i] == b.journal@[i]);
        assert(b.journal@.subrange(0, al)[i] == a.journal@[i]);
    }
    assert(c.journal@.subrange(0, al) =~= a.journal@);
}

/// Nothing moved: a state is framed against itself.
pub proof fn lemma_dispatch_frame_refl(a: Runtime)
    ensures
        dispatch_frame(a, a),
{
    assert(a.journal@.subrange(0, a.journal@.len() as int) =~= a.journal@);
}

/// The position of the first emission argument whose value type is not
/// exactly the declared parameter type.  The registration demands an exact
/// match; an object argument is viewed at the declared type by the caller
/// before emission, as a wrapper is upcast before being passed.
pub open spec fn first_bad_arg(params: Seq<Type>, args: Seq<Value>) -> Option<int>
    decreases params.len(),
{
    if params.len() == 0 || args.len() == 0 {
        None
    } else if args[0].value_type() != params[0] {
        Some(0)
    } else {
        match first_bad_arg(params.drop_first(), args.drop_first()) {
            Some(j) => Some(j + 1),
            None => None,
        }
    }
}

/// What `first_bad_arg` returns, for equally long lists.
pub proof fn lemma_first_bad_arg(params: Seq<Type>, args: Seq<Value>)
    requires
        params.len() == args.len(),
    ensures
        match first_bad_arg(params, args) {
            Some(j) => 0 <= j < params.len() && args[j].value_type() != params[j] && (forall|m: int|
                0 <= m < j ==> (#[trigger] args[m]).value_type() == params[m]),
            None => forall|m: int|
                0 <= m < params.len() ==> (#[trigger] args[m]).value_type() == params[m],
        },
    decreases params.len(),
{
    if params.len() != 0 && args[0].value_type() == params[0] {
        lemma_first_bad_arg(params.drop_first(), args.drop_first());
        assert forall|m: int| 1 <= m < params.len() implies params.drop_first()[m - 1] == params[m]
            && args.drop_first()[m - 1] == args[m] by {}
    }
}

/// The target side of one binding synchronization step is ready to accept
/// the transformed value: the instance is alive, the property is writable
/// after construction, the value fits (or the property validates laxly),
/// the setter stores, and the target's notification handlers merely record.
pub open spec fn sync_write_ready(rt: Runtime, tgt: usize, tp: Seq<char>, tv: Value) -> bool {
    &&& tgt < rt.instances@.len()
    &&& rt.instances@[tgt as int].alive
    &&& ({
        let table = rt.registry.all_props(rt.instances@[tgt as int].ty);
        match find_prop_in(table, tp) {
            Some(kt) => {
                let q = table[kt];
                &&& q.spec.flags.writable
                &&& !q.spec.flags.construct_only
                &&& rt.registry.is_a_spec(tv.value_type(), q.spec.value_type)
                &&& (q.spec.in_range(tv) || q.spec.flags.lax_validation)
                &&& q.setter is Store
                &&& all_record_ids(
                    rt.instances@[tgt as int].handlers@,
                    matching_notify_ids(rt.instances@[tgt as int].handlers@, tp),
                )
            },
            None => false,
        }
    })
}

/// A peerless synchronization behavior whose whole step is ready: the
/// source property reads, the transform accepts the value, and the target
/// accepts the result.
pub open spec fn sync_behavior_ready(rt: Runtime, b: HandlerBehavior) -> bool {
    match b {
        HandlerBehavior::SyncProperty {
            source,
            source_property,
            target,
            target_property,
            transform,
            peer,
        } => {
            &&& peer is None
            &&& source < rt.instances@.len()
            &&& rt.instances@[source as int].alive
            &&& (match rt.read_prop(source as int, source_property@) {
                Some(sv) => match crate::signals::apply_transform_spec(transform, sv) {
                    Some(tv) => sync_write_ready(rt, target, target_property@, tv),
                    None => false,
                },
                None => false,
            })
        },
        _ => false,
    }
}

/// What one ready synchronization step does: exactly the target property
/// slot changes, to the validated transform of the source value.
pub open spec fn sync_applied(pre: Runtime, post: Runtime, b: HandlerBehavior) -> bool {
    match b {
        HandlerBehavior::SyncProperty { source, source_property, target, target_property, transform, .. } => {
            let sv = pre.read_prop(source as int, source_property@)->0;
            let tv = crate::signals::apply_transform_spec(transform, sv)->0;
            let table = pre.registry.all_props(pre.instances@[target as int].ty);
            let kt = find_prop_in(table, target_property@)->0;
            &&& same_except(pre.instances@, post.instances@, target as int)
            &&& post.instances@[target as int].props@ == pre.instances@[target
                as int].props@.update(kt, table[kt].spec.clamp_spec(tv))
        },
        _ => false,
    }
}

impl Runtime {
    /// Runs one handler behavior.  A passive behavior touches nothing and
    /// supplies its value; an active behavior performs its nested writes —
    /// swallowing their failures — and supplies nothing.
    fn run_behavior(&mut self, fuel: u64, obj: usize, b: &HandlerBehavior, args: &Vec<Value>) -> (r:
        Option<Value>)
        requires
            old(self).wf(),
            obj < old(self).instances@.len(),
        ensures
            final(self).wf(),
            dispatch_frame(*old(self), *final(self)),
            b.is_passive() ==> *final(self) == *old(self) && r == b.yields(args@),
            !b.is_passive() ==> r is None,
            (fuel >= 2 && sync_behavior_ready(*old(self), *b)) ==> sync_applied(
                *old(self),
                *final(self),
                *b,
            ),
        decreases fuel, 0nat, 0nat,
    {
        proof {
            lemma_dispatch_frame_refl(*old(self));
        }
        match b {
            HandlerBehavior::Record => None,
            HandlerBehavior::ReturnValue(v) => Some(value_clone(v)),
            HandlerBehavior::ReturnArg(i) => {
                if *i < args.len() {
                    Some(value_clone(&args[*i]))
                } else {
                    None
                }
            },
            HandlerBehavior::SetProperty { property, value } => {
                if fuel > 0 && self.instances[obj].alive {
                    let _ = self.set_property_fueled(fuel - 1, obj, property.as_str(), value);
                }
                None
            },
            HandlerBehavior::SyncProperty {
                source,
                source_property,
                target,
                target_property,
                transform,
                peer,
            } => {
                if fuel > 0 && *source < self.instances.len() && *target < self.instances.len()
                    && self.instances[*source].alive && self.instances[*target].alive {
                    let sobj = self.from_owned(*source);
                    match self.get_property(&sobj, source_property.as_str()) {
                        Ok(v) => {
                            match crate::signals::apply_transform(transform, &v) {
                                Some(tv) => {
                                    let ghost mid0 = *self;
                                    let blocked = match peer {
                                        Some((po, praw)) => {
                                            let tok = SignalHandlerId { object: *po, raw: *praw };
                                            self.block_signal(&tok).is_ok()
                                        },
                                        None => false,
                                    };
                                    let ghost mid1 = *self;
                                    let _ = self.set_property_fueled(
                                        fuel - 1,
                                        *target,
                                        target_property.as_str(),
                                        &tv,
                                    );
                                    let ghost mid2 = *self;
                                    if blocked {
                                        match peer {
                                            Some((po, praw)) => {
                                                let tok = SignalHandlerId {
                                                    object: *po,
                                                    raw: *praw,
                                                };
                                                let unb = self.unblock_signal(&tok);
                                                proof {
                                                    lemma_restore_block(
                                                        mid0,
                                                        mid1,
                                                        mid2,
                                                        *self,
                                                        SignalHandlerId { object: *po, raw: *praw },
                                                        unb,
                                                    );
                                                }
                                            },
                                            None => {},
                                        }
                                    }
                                    proof {
                                        if !blocked {
                                            lemma_dispatch_frame_trans(*old(self), mid1, *self);
                                        }
                                    }
                                },
                                None => {},
                            }
                        },
                        Err(_) => {},
                    }
                    None
                } else {
                    None
                }
            },
        }
    }
}

/// A supplied return value agrees with the declared return type: signals
/// without a return type accept no value, signals with one need a value of
/// that type or a subtype.
pub open spec fn conforms(reg: TypeRegistry, ret: Type, y: Option<Value>) -> bool {
    if ret == Type::Unit {
        y is None
    } else {
        match y {
            Some(v) => reg.is_a_spec(v.value_type(), ret),
            None => false,
        }
    }
}

/// Every token in the list whose handler still exists names a passive
/// handler.
pub open spec fn all_passive_ids(hs: Seq<Handler>, ids: Seq<u64>) -> bool {
    forall|m: int|
        0 <= m < ids.len() ==> match handler_by_id(hs, #[trigger] ids[m]) {
            Some(j) => hs[j].behavior.is_passive(),
            None => true,
        }
}

/// Every token in the list whose handler still exists names a handler that
/// merely records its invocation.
pub open spec fn all_record_ids(hs: Seq<Handler>, ids: Seq<u64>) -> bool {
    forall|m: int|
        0 <= m < ids.len() ==> match handler_by_id(hs, #[trigger] ids[m]) {
            Some(j) => hs[j].behavior is Record,
            None => true,
        }
}

/// What a dispatch over passive handlers does: which handlers run (in
/// order, each exactly once, stopping at the first non-conforming return)
/// and what comes out — the accumulated value, each handler's conforming
/// return overwriting the previous one, or a conformance failure.
pub open spec fn passive_run(
    reg: TypeRegistry,
    hs: Seq<Handler>,
    ids: Seq<u64>,
    args: Seq<Value>,
    ret: Type,
    acc: Option<Value>,
) -> (Seq<u64>, Result<Option<Value>, ()>)
    decreases ids.len(),
{
    if ids.len() == 0 {
        (Seq::<u64>::empty(), Ok(acc))
    } else {
        match handler_by_id(hs, ids[0]) {
            None => passive_run(reg, hs, ids.drop_first(), args, ret, acc),
            Some(j) => {
                let h = hs[j];
                if !(h.connected && h.block_count == 0) {
                    passive_run(reg, hs, ids.drop_first(), args, ret, acc)
                } else {
                    let y = h.behavior.yields(args);
                    if conforms(reg, ret, y) {
                        let acc2 = if ret == Type::Unit {
                            Option::<Value>::None
                        } else {
                            y
                        };
                        let rest = passive_run(reg, hs, ids.drop_first(), args, ret, acc2);
                        (seq![ids[0]] + rest.0, rest.1)
                    } else {
                        (seq![ids[0]], Err(()))
                    }
                }
            },
        }
    }
}

/// A passive dispatch over a concatenation: the left part runs first; if it
/// fails, the right part never runs.
pub proof fn lemma_passive_run_concat(
    reg: TypeRegistry,
    hs: Seq<Handler>,
    a: Seq<u64>,
    b: Seq<u64>,
    args: Seq<Value>,
    ret: Type,
    acc: Option<Value>,
)
    ensures
        passive_run(reg, hs, a + b, args, ret, acc) == ({
            let left = passive_run(reg, hs, a, args, ret, acc);
            match left.1 {
                Err(()) => left,
                Ok(acc2) => {
                    let right = passive_run(reg, hs, b, args, ret, acc2);
                    ((left.0 + right.0), right.1)
                },
            }
        }),
    decreases a.len(),
{
    if a.len() == 0 {
        assert(a + b =~= b);
        let right = passive_run(reg, hs, b, args, ret, acc);
        assert(Seq::<u64>::empty() + right.0 =~= right.0);
    } else {
        assert((a + b)[0] == a[0]);
        assert((a + b).drop_first() =~= a.drop_first() + b);
        lemma_passive_run_concat(reg, hs, a.drop_first(), b, args, ret, acc);
        match handler_by_id(hs, a[0]) {
            None => {},
            Some(j) => {
                let h = hs[j];
                if h.connected && h.block_count == 0 {
                    let y = h.behavior.yields(args);
                    if conforms(reg, ret, y) {
                        let acc2 = if ret == Type::Unit {
                            Option::<Value>::None
                        } else {
                            y
                        };
                        lemma_passive_run_concat(reg, hs, a.drop_first(), b, args, ret, acc2);
                        let leftrest = passive_run(reg, hs, a.drop_first(), args, ret, acc2);
                        match leftrest.1 {
                            Err(()) => {},
                            Ok(acc3) => {
                                let right = passive_run(reg, hs, b, args, ret, acc3);
                                assert(seq![a[0]] + (leftrest.0 + right.0) =~= (seq![a[0]]
                                    + leftrest.0) + right.0);
                            },
                        }
                    }
                }
            },
        }
    }
}

/// One run of the class default handler over passive behaviors: its value
/// must conform like any other, and it accumulates the same way.
pub open spec fn class_stage(
    reg: TypeRegistry,
    ch: HandlerBehavior,
    full: Seq<Value>,
    ret: Type,
) -> Result<Option<Value>, ()> {
    let y = ch.yields(full);
    if conforms(reg, ret, y) {
        Ok(
            if ret == Type::Unit {
                Option::<Value>::None
            } else {
                y
            },
        )
    } else {
        Err(())
    }
}

/// A whole quiet emission — class default handler at its stage, then the
/// before- and after-handlers — over passive behaviors: which connected
/// handlers run (in order, stopping at the first non-conforming return) and
/// the accumulated outcome.
pub open spec fn quiet_pipeline(
    reg: TypeRegistry,
    hs: Seq<Handler>,
    sig: Seq<char>,
    run_first: bool,
    ch_opt: Option<HandlerBehavior>,
    full: Seq<Value>,
    ret: Type,
) -> (Seq<u64>, Result<Option<Value>, ()>) {
    let before = matching_signal_ids(hs, sig, false);
    let after = matching_signal_ids(hs, sig, true);
    let stage0: Result<Option<Value>, ()> = if run_first {
        match ch_opt {
            Some(ch) => class_stage(reg, ch, full, ret),
            None => Ok(None),
        }
    } else {
        Ok(None)
    };
    match stage0 {
        Err(()) => (Seq::<u64>::empty(), Err(())),
        Ok(a0) => {
            let p1 = passive_run(reg, hs, before, full, ret, a0);
            match p1.1 {
                Err(()) => (p1.0, Err(())),
                Ok(a1) => {
                    let stage1: Result<Option<Value>, ()> = if !run_first {
                        match ch_opt {
                            Some(ch) => class_stage(reg, ch, full, ret),
                            None => Ok(a1),
                        }
                    } else {
                        Ok(a1)
                    };
                    match stage1 {
                        Err(()) => (p1.0, Err(())),
                        Ok(a2) => {
                            let p2 = passive_run(reg, hs, after, full, ret, a2);
                            ((p1.0 + p2.0), p2.1)
                        },
                    }
                },
            }
        },
    }
}

/// The tokens whose handlers still exist, connected and unblocked — the
/// ones an emission runs — in order.
pub open spec fn record_run(hs: Seq<Handler>, ids: Seq<u64>) -> Seq<u64>
    decreases ids.len(),
{
    if ids.len() == 0 {
        Seq::<u64>::empty()
    } else {
        (match handler_by_id(hs, ids[0]) {
            Some(j) => if hs[j].connected && hs[j].block_count == 0 {
                seq![ids[0]]
            } else {
                Seq::<u64>::empty()
            },
            None => Seq::<u64>::empty(),
        }) + record_run(hs, ids.drop_first())
    }
}

/// Handlers that merely record always conform to a signal without a return
/// type, so a dispatch over them runs every connected, unblocked handler in
/// the list and succeeds.
pub proof fn lemma_record_run(
    reg: TypeRegistry,
    hs: Seq<Handler>,
    ids: Seq<u64>,
    args: Seq<Value>,
)
    requires
        all_record_ids(hs, ids),
    ensures
        all_passive_ids(hs, ids),
        passive_run(reg, hs, ids, args, Type::Unit, None).1 == Result::<Option<Value>, ()>::Ok(
            Option::<Value>::None,
        ),
        passive_run(reg, hs, ids, args, Type::Unit, None).0 == record_run(hs, ids),
    decreases ids.len(),
{
    assert forall|m: int|
        0 <= m < ids.len() implies match handler_by_id(hs, #[trigger] ids[m]) {
        Some(j) => hs[j].behavior.is_passive(),
        None => true,
    } by {
        assert(match handler_by_id(hs, ids[m]) {
            Some(j) => hs[j].behavior is Record,
            None => true,
        });
    }
    if ids.len() != 0 {
        assert forall|m: int| 0 <= m < ids.drop_first().len() implies match handler_by_id(
            hs,
            #[trigger] ids.drop_first()[m],
        ) {
            Some(j) => hs[j].behavior is Record,
            None => true,
        } by {
            assert(ids.drop_first()[m] == ids[m + 1]);
            assert(match handler_by_id(hs, ids[m + 1]) {
                Some(j) => hs[j].behavior is Record,
                None => true,
            });
        }
        lemma_record_run(reg, hs, ids.drop_first(), args);
        match handler_by_id(hs, ids[0]) {
            Some(j) => {
                assert(match handler_by_id(hs, ids[0]) {
                    Some(jj) => hs[jj].behavior is Record,
                    None => true,
                });
                if hs[j].connected && hs[j].block_count == 0 {
                    assert(passive_run(reg, hs, ids, args, Type::Unit, None).0 =~= record_run(
                        hs,
                        ids,
                    ));
                } else {
                    assert(passive_run(reg, hs, ids, args, Type::Unit, None).0 =~= record_run(
                        hs,
                        ids,
                    ));
                }
            },
            None => {
                assert(passive_run(reg, hs, ids, args, Type::Unit, None).0 =~= record_run(
                    hs,
                    ids,
                ));
            },
        }
    }
}

impl Runtime {
    /// Runs the snapshotted handlers from position `pos` on, journaling each
    /// invocation, checking every supplied return value against the declared
    /// return type, and accumulating the last conforming value.  Over
    /// passive handlers the dispatch is exact: each connected, unblocked
    /// handler in the snapshot runs exactly once, in order, and the journal
    /// records precisely those invocations.
    fn run_list(
        &mut self,
        fuel: u64,
        obj: usize,
        ids: &Vec<u64>,
        pos: usize,
        args: &Vec<Value>,
        ret: Type,
        acc: Option<Value>,
    ) -> (r: Result<Option<Value>, ObjectError>)
        requires
            old(self).wf(),
            obj < old(self).instances@.len(),
            pos <= ids@.len(),
        ensures
            final(self).wf(),
            dispatch_frame(*old(self), *final(self)),
            all_passive_ids(
                old(self).instances@[obj as int].handlers@,
                ids@.skip(pos as int),
            ) ==> ({
                let hs = old(self).instances@[obj as int].handlers@;
                let pr = passive_run(
                    old(self).registry,
                    hs,
                    ids@.skip(pos as int),
                    args@,
                    ret,
                    acc,
                );
                &&& final(self).instances@ == old(self).instances@
                &&& final(self).journal@.len() == old(self).journal@.len() + pr.0.len()
                &&& (forall|m: int|
                    0 <= m < pr.0.len() ==> (#[trigger] final(self).journal@[old(self).journal@.len() + m]).object == obj && final(self).journal@[old(self).journal@.len() + m].handler == pr.0[m] && final(self).journal@[old(self).journal@.len() + m].args@ == args@)
                &&& (match pr.1 {
                    Ok(v) => r == Result::<Option<Value>, ObjectError>::Ok(v),
                    Err(()) => crate::error::is_operation_failed(r),
                })
            }),
            // A single ready synchronization handler: it runs and exactly
            // the target property changes.
            (fuel >= 3 && ret == Type::Unit && ids@.skip(pos as int).len() == 1 && (
            match handler_by_id(old(self).instances@[obj as int].handlers@, ids@[pos as int]) {
                Some(j) => {
                    let h = old(self).instances@[obj as int].handlers@[j];
                    h.connected && h.block_count == 0 && sync_behavior_ready(
                        *old(self),
                        h.behavior,
                    )
                },
                None => false,
            })) ==> (r is Ok && sync_applied(
                *old(self),
                *final(self),
                old(self).instances@[obj as int].handlers@[handler_by_id(
                    old(self).instances@[obj as int].handlers@,
                    ids@[pos as int],
                )->0].behavior,
            )),
        decreases fuel, ids@.len() - pos, 1nat,
    {
        proof {
            lemma_dispatch_frame_refl(*old(self));
        }
        let ghost hs0 = self.instances@[obj as int].handlers@;
        let ghost rest_ids = ids@.skip(pos as int);
        if pos == ids.len() {
            proof {
                assert(rest_ids =~= Seq::<u64>::empty());
            }
            return Ok(acc);
        }
        proof {
            assert(rest_ids[0] == ids@[pos as int]);
            assert(rest_ids.drop_first() =~= ids@.skip(pos + 1 as int));
            if all_passive_ids(hs0, rest_ids) {
                assert forall|m: int|
                    0 <= m < rest_ids.drop_first().len() implies match handler_by_id(
                    hs0,
                    #[trigger] rest_ids.drop_first()[m],
                ) {
                    Some(j) => hs0[j].behavior.is_passive(),
                    None => true,
                } by {
                    assert(rest_ids.drop_first()[m] == rest_ids[m + 1]);
                    assert(match handler_by_id(hs0, rest_ids[m + 1]) {
                        Some(j) => hs0[j].behavior.is_passive(),
                        None => true,
                    });
                }
            }
        }
        let found = self.find_handler(obj, ids[pos]);
        match found {
            None => {
                let r = self.run_list(fuel, obj, ids, pos + 1, args, ret, acc);
                r
            },
            Some(j) => {
                proof {
                    lemma_handler_by_id(self.instances@[obj as int].handlers@, ids@[pos as int]);
                }
                let runnable = self.instances[obj].handlers[j].connected
                    && self.instances[obj].handlers[j].block_count == 0;
                if !runnable {
                    let r = self.run_list(fuel, obj, ids, pos + 1, args, ret, acc);
                    return r;
                }
                let hid = self.instances[obj].handlers[j].id;
                let b = crate::signals::behavior_clone(&self.instances[obj].handlers[j].behavior);
                self.journal.push(
                    Invocation { object: obj, handler: hid, args: crate::value::values_clone(args) },
                );
                let ghost mid0 = *self;
                proof {
                    assert(dispatch_frame(*old(self), mid0)) by {
                        assert(mid0.journal@.subrange(0, old(self).journal@.len() as int)
                            =~= old(self).journal@);
                    }
                    assert forall|m: int| 0 <= m < self.instances@.len()
                        implies self.wf_instance(m) by {
                        assert(old(self).wf_instance(m));
                    }
                }
                let inner_fuel = if fuel == 0 {
                    0
                } else {
                    fuel - 1
                };
                let y = self.run_behavior(inner_fuel, obj, &b, args);
                let ghost mid1 = *self;
                proof {
                    lemma_dispatch_frame_trans(*old(self), mid0, mid1);
                }
                let acc2 = if matches!(ret, Type::Unit) {
                    match y {
                        Some(_) => {
                            return Err(ObjectError::OperationFailed {
                                message: String::from_str(
                                    "handler supplied a value to a signal without a return type",
                                ),
                            });
                        },
                        None => None,
                    }
                } else {
                    match y {
                        None => {
                            return Err(ObjectError::OperationFailed {
                                message: String::from_str(
                                    "handler supplied no value to a signal with a return type",
                                ),
                            });
                        },
                        Some(v) => {
                            let vt = v.type_();
                            if !self.registry.is_a(vt, ret) {
                                return Err(ObjectError::OperationFailed {
                                    message: String::from_str(
                                        "handler supplied a value of the wrong type",
                                    ),
                                });
                            }
                            Some(v)
                        },
                    }
                };
                let r = self.run_list(fuel, obj, ids, pos + 1, args, ret, acc2);
                proof {
                    lemma_dispatch_frame_trans(*old(self), mid1, *self);
                    if all_passive_ids(hs0, rest_ids) {
                        let pr = passive_run(old(self).registry, hs0, rest_ids, args@, ret, acc);
                        let rest = passive_run(
                            old(self).registry,
                            hs0,
                            rest_ids.drop_first(),
                            args@,
                            ret,
                            acc2,
                        );
                        assert(match handler_by_id(hs0, rest_ids[0]) {
                            Some(jj) => hs0[jj].behavior.is_passive(),
                            None => true,
                        });
                        assert(hs0[j as int].behavior.is_passive());
                        assert(mid1 == mid0);
                        assert(mid1.instances@ == old(self).instances@);
                        assert(mid1.journal@[old(self).journal@.len() as int].object == obj);
                        assert(mid1.journal@[old(self).journal@.len() as int].handler
                            == rest_ids[0]);
                        assert(mid1.journal@[old(self).journal@.len() as int].args@ == args@);
                        assert forall|m: int|
                            0 <= m < rest.0.len() implies (#[trigger] self.journal@[old(self).journal@.len() + 1 + m]).object == obj && self.journal@[old(self).journal@.len() + 1 + m].handler == rest.0[m] && self.journal@[old(self).journal@.len() + 1 + m].args@ == args@ by {
                            assert(self.journal@[mid1.journal@.len() + m].object == obj);
                        }
                        assert(self.journal@[old(self).journal@.len() as int] == mid1.journal@[old(self).journal@.len() as int]) by {
                            assert(self.journal@.subrange(0, mid1.journal@.len() as int)
                                == mid1.journal@);
                            assert(self.journal@.subrange(0, mid1.journal@.len() as int)[old(self).journal@.len() as int] == self.journal@[old(self).journal@.len() as int]);
                        }
                        assert(pr.0 == seq![rest_ids[0]] + rest.0);
                        assert forall|m: int|
                            0 <= m < pr.0.len() implies (#[trigger] self.journal@[old(self).journal@.len() + m]).object == obj && self.journal@[old(self).journal@.len() + m].handler == pr.0[m] && self.journal@[old(self).journal@.len() + m].args@ == args@ by {
                            if m == 0 {
                                assert(pr.0[0] == rest_ids[0]);
                            } else {
                                assert(pr.0[m] == rest.0[m - 1]);
                                assert(self.journal@[old(self).journal@.len() + 1 + (m
                                    - 1)].object == obj);
                                assert(self.journal@[old(self).journal@.len() + 1 + (m
                                    - 1)].handler == rest.0[m - 1]);
                                assert(self.journal@[old(self).journal@.len() + 1 + (m
                                    - 1)].args@ == args@);
                                assert(old(self).journal@.len() + 1 + (m - 1) == old(self).journal@.len() + m);
                            }
                        }
                    }
                }
                r
            },
        }
    }

    /// Runs one class default handler and checks its value.
    fn run_class_handler(
        &mut self,
        fuel: u64,
        obj: usize,
        b: &HandlerBehavior,
        args: &Vec<Value>,
        ret: Type,
        acc: Option<Value>,
    ) -> (r: Result<Option<Value>, ObjectError>)
        requires
            old(self).wf(),
            obj < old(self).instances@.len(),
        ensures
            final(self).wf(),
            dispatch_frame(*old(self), *final(self)),
            b.is_passive() ==> *final(self) == *old(self) && (match class_stage(
                old(self).registry,
                *b,
                args@,
                ret,
            ) {
                Ok(v) => r == Result::<Option<Value>, ObjectError>::Ok(v),
                Err(()) => crate::error::is_operation_failed(r),
            }),
        decreases fuel, 0nat, 1nat,
    {
        let inner_fuel = if fuel == 0 {
            0
        } else {
            fuel - 1
        };
        let y = self.run_behavior(inner_fuel, obj, b, args);
        if matches!(ret, Type::Unit) {
            match y {
                Some(_) => Err(ObjectError::OperationFailed {
                    message: String::from_str(
                        "handler supplied a value to a signal without a return type",
                    ),
                }),
                None => Ok(None),
            }
        } else {
            match y {
                None => Err(ObjectError::OperationFailed {
                    message: String::from_str(
                        "handler supplied no value to a signal with a return type",
                    ),
                }),
                Some(v) => {
                    let vt = v.type_();
                    if !self.registry.is_a(vt, ret) {
                        Err(ObjectError::OperationFailed {
                            message: String::from_str("handler supplied a value of the wrong type"),
                        })
                    } else {
                        Ok(Some(v))
                    }
                },
            }
        }
    }

    /// Emission with an explicit re-entrancy budget.
    fn emit_fueled(&mut self, fuel: u64, obj: usize, signal_name: &str, args: &Vec<Value>) -> (r:
        Result<Option<Value>, ObjectError>)
        requires
            old(self).wf(),
            obj < old(self).instances@.len(),
            old(self).instances@[obj as int].alive,
        ensures
            final(self).wf(),
            dispatch_frame(*old(self), *final(self)),
            fuel == 0 ==> *final(self) == *old(self) && crate::error::is_operation_failed(r),
            fuel >= 1 ==> ({
                let ty = old(self).instances@[obj as int].ty;
                let sigs = old(self).registry.all_signals(ty);
                match crate::registry::find_signal_in(sigs, signal_name@) {
                    None => *final(self) == *old(self) && crate::error::is_signal_not_found(
                        r,
                        signal_name@,
                        old(self).registry.name_of_type(ty),
                    ),
                    Some(si) => {
                        let s = sigs[si];
                        if args@.len() != s.param_types@.len() {
                            *final(self) == *old(self) && crate::error::is_argument_count_mismatch(
                                r,
                                signal_name@,
                                s.param_types@.len() as int,
                                args@.len() as int,
                            )
                        } else {
                            match first_bad_arg(s.param_types@, args@) {
                                Some(bi) => *final(self) == *old(self)
                                    && crate::error::is_argument_type_mismatch(r, signal_name@, bi),
                                None => {
                                    let hs = old(self).instances@[obj as int].handlers@;
                                    let both = matching_signal_ids(hs, signal_name@, false)
                                        + matching_signal_ids(hs, signal_name@, true);
                                    let full = seq![Value::Object(ty, Some(obj))] + args@;
                                    &&& ((s.class_handler is None && all_passive_ids(hs, both)) ==> ({
                                        let pr = passive_run(
                                            old(self).registry,
                                            hs,
                                            both,
                                            full,
                                            s.ret_type,
                                            None,
                                        );
                                        &&& final(self).instances@ == old(self).instances@
                                        &&& final(self).journal@.len() == old(self).journal@.len() + pr.0.len()
                                        &&& (forall|m: int|
                                            0 <= m < pr.0.len() ==> (#[trigger] final(self).journal@[old(self).journal@.len() + m]).object == obj
                                                && final(self).journal@[old(self).journal@.len() + m].handler == pr.0[m] && final(self).journal@[old(self).journal@.len() + m].args@ == full)
                                        &&& (match pr.1 {
                                            Ok(v) => r == Result::<
                                                Option<Value>,
                                                ObjectError,
                                            >::Ok(v),
                                            Err(()) => crate::error::is_operation_failed(r),
                                        })
                                    }))
                                    // A passive class default handler keeps
                                    // the emission exact too: it accumulates
                                    // at its declared stage and is never
                                    // journaled.
                                    &&& (((match s.class_handler {
                                        Some(ch) => ch.is_passive(),
                                        None => false,
                                    }) && all_passive_ids(hs, both)) ==> ({
                                        let pr = quiet_pipeline(
                                            old(self).registry,
                                            hs,
                                            signal_name@,
                                            s.flags.run_first,
                                            s.class_handler,
                                            full,
                                            s.ret_type,
                                        );
                                        &&& final(self).instances@ == old(self).instances@
                                        &&& final(self).journal@.len() == old(self).journal@.len() + pr.0.len()
                                        &&& (forall|m: int|
                                            0 <= m < pr.0.len() ==> (#[trigger] final(self).journal@[old(self).journal@.len() + m]).object == obj
                                                && final(self).journal@[old(self).journal@.len() + m].handler == pr.0[m] && final(self).journal@[old(self).journal@.len() + m].args@ == full)
                                        &&& (match pr.1 {
                                            Ok(v) => r == Result::<
                                                Option<Value>,
                                                ObjectError,
                                            >::Ok(v),
                                            Err(()) => crate::error::is_operation_failed(r),
                                        })
                                    }))
                                },
                            }
                        }
                    },
                }
            }),
        decreases fuel, 0nat, 2nat,
    {
        proof {
            lemma_dispatch_frame_refl(*old(self));
        }
        if fuel == 0 {
            return Err(ObjectError::OperationFailed {
                message: String::from_str("emission nested too deeply"),
            });
        }
        let ty = self.instances[obj].ty;
        let s = match self.registry.find_signal(ty, signal_name) {
            None => {
                return Err(ObjectError::SignalNotFound {
                    signal: String::from_str(signal_name),
                    owner: self.registry.name(ty),
                });
            },
            Some(s) => s,
        };
        if args.len() != s.param_types.len() {
            return Err(ObjectError::ArgumentCountMismatch {
                signal: String::from_str(signal_name),
                expected: s.param_types.len(),
                got: args.len(),
            });
        }
        proof {
            lemma_first_bad_arg(s.param_types@, args@);
        }
        let mut k: usize = 0;
        while k < args.len()
            invariant
                *self == *old(self),
                old(self).wf(),
                fuel >= 1,
                k <= args@.len(),
                args@.len() == s.param_types@.len(),
                ty == old(self).instances@[obj as int].ty,
                ({
                    let sigs = old(self).registry.all_signals(ty);
                    match crate::registry::find_signal_in(sigs, signal_name@) {
                        Some(si) => s.param_types@ == sigs[si].param_types@,
                        None => false,
                    }
                }),
                forall|m: int|
                    0 <= m < k ==> (#[trigger] args@[m]).value_type() == s.param_types@[m],
            decreases args@.len() - k,
        {
            let vt = args[k].type_();
            if vt != s.param_types[k] {
                proof {
                    lemma_first_bad_arg(s.param_types@, args@);
                    lemma_dispatch_frame_refl(*old(self));
                }
                return Err(ObjectError::ArgumentTypeMismatch {
                    signal: String::from_str(signal_name),
                    index: k,
                    expected: self.registry.name(s.param_types[k]),
                    got: self.registry.name(vt),
                });
            }
            k = k + 1;
        }
        // The emitting instance is the implicit first argument.
        let mut full: Vec<Value> = Vec::new();
        full.push(Value::Object(ty, Some(obj)));
        let mut k: usize = 0;
        while k < args.len()
            invariant
                k <= args@.len(),
                full@ == seq![Value::Object(ty, Some(obj))] + args@.subrange(0, k as int),
            decreases args@.len() - k,
        {
            full.push(value_clone(&args[k]));
            proof {
                assert(full@ =~= seq![Value::Object(ty, Some(obj))] + args@.subrange(
                    0,
                    k + 1 as int,
                ));
            }
            k = k + 1;
        }
        proof {
            assert(args@.subrange(0, args@.len() as int) =~= args@);
        }
        let before_ids = self.collect_signal_ids(obj, signal_name, false);
        let after_ids = self.collect_signal_ids(obj, signal_name, true);
        let ghost hs = old(self).instances@[obj as int].handlers@;
        let ghost both = matching_signal_ids(hs, signal_name@, false) + matching_signal_ids(
            hs,
            signal_name@,
            true,
        );
        let ghost quiet = s.class_handler is None && all_passive_ids(hs, both);
        let ghost quiet2 = s.class_handler is Some && s.class_handler->0.is_passive()
            && all_passive_ids(hs, both);
        proof {
            if quiet || quiet2 {
                assert forall|m: int|
                    0 <= m < before_ids@.len() implies match handler_by_id(
                    hs,
                    #[trigger] before_ids@[m],
                ) {
                    Some(j) => hs[j].behavior.is_passive(),
                    None => true,
                } by {
                    assert(both[m] == before_ids@[m]);
                    assert(match handler_by_id(hs, both[m]) {
                        Some(j) => hs[j].behavior.is_passive(),
                        None => true,
                    });
                }
                assert forall|m: int|
                    0 <= m < after_ids@.len() implies match handler_by_id(
                    hs,
                    #[trigger] after_ids@[m],
                ) {
                    Some(j) => hs[j].behavior.is_passive(),
                    None => true,
                } by {
                    assert(both[before_ids@.len() + m] == after_ids@[m]);
                    assert(match handler_by_id(hs, both[before_ids@.len() + m]) {
                        Some(j) => hs[j].behavior.is_passive(),
                        None => true,
                    });
                }
                lemma_passive_run_concat(
                    self.registry,
                    hs,
                    before_ids@,
                    after_ids@,
                    full@,
                    s.ret_type,
                    None,
                );
            }
        }
        let mut acc: Option<Value> = None;
        let ghost st0 = *self;
        if s.flags.run_first {
            match &s.class_handler {
                Some(ch) => {
                    acc = match self.run_class_handler(fuel, obj, ch, &full, s.ret_type, acc) {
                        Ok(a) => a,
                        Err(e) => {
                            proof {
                                if quiet2 {
                                    assert(*self == st0);
                                    assert(quiet_pipeline(
                                        old(self).registry,
                                        hs,
                                        signal_name@,
                                        s.flags.run_first,
                                        s.class_handler,
                                        full@,
                                        s.ret_type,
                                    ).1 is Err);
                                }
                            }
                            return Err(e);
                        },
                    };
                },
                None => {},
            }
        }
        let ghost st1 = *self;
        proof {
            lemma_dispatch_frame_refl(st0);
            lemma_dispatch_frame_refl(st1);
        }
        let r1 = self.run_list(fuel - 1, obj, &before_ids, 0, &full, s.ret_type, acc);
        acc = match r1 {
            Ok(a) => a,
            Err(e) => {
                proof {
                    lemma_dispatch_frame_trans(*old(self), st1, *self);
                    if quiet {
                        assert(before_ids@.skip(0) =~= before_ids@);
                        let pr1 = passive_run(
                            self.registry,
                            hs,
                            before_ids@,
                            full@,
                            s.ret_type,
                            None,
                        );
                        assert(pr1.1 is Err);
                    }
                    if quiet2 {
                        assert(st1 == st0);
                        assert(before_ids@.skip(0) =~= before_ids@);
                        let prq = quiet_pipeline(
                            old(self).registry,
                            hs,
                            signal_name@,
                            s.flags.run_first,
                            s.class_handler,
                            full@,
                            s.ret_type,
                        );
                        let p1 = passive_run(self.registry, hs, before_ids@, full@, s.ret_type, acc);
                        assert(p1.1 is Err);
                        assert(prq.0 == p1.0 && prq.1 is Err);
                        assert(self.journal@.len() == old(self).journal@.len() + prq.0.len());
                    }
                }
                return Err(e);
            },
        };
        let ghost st2 = *self;
        proof {
            lemma_dispatch_frame_refl(st2);
            lemma_dispatch_frame_trans(*old(self), st1, st2);
            if quiet {
                assert(before_ids@.skip(0) =~= before_ids@);
            }
        }
        if !s.flags.run_first {
            match &s.class_handler {
                Some(ch) => {
                    acc = match self.run_class_handler(fuel, obj, ch, &full, s.ret_type, acc) {
                        Ok(a) => a,
                        Err(e) => {
                            proof {
                                lemma_dispatch_frame_trans(*old(self), st2, *self);
                                if quiet2 {
                                    assert(*self == st2);
                                    assert(st1 == st0);
                                    assert(before_ids@.skip(0) =~= before_ids@);
                                    let prq = quiet_pipeline(
                                        old(self).registry,
                                        hs,
                                        signal_name@,
                                        s.flags.run_first,
                                        s.class_handler,
                                        full@,
                                        s.ret_type,
                                    );
                                    let p1 = passive_run(
                                        self.registry,
                                        hs,
                                        before_ids@,
                                        full@,
                                        s.ret_type,
                                        None,
                                    );
                                    assert(prq.0 == p1.0 && prq.1 is Err);
                                }
                            }
                            return Err(e);
                        },
                    };
                },
                None => {},
            }
        }
        let ghost st3 = *self;
        proof {
            lemma_dispatch_frame_refl(st3);
            lemma_dispatch_frame_trans(*old(self), st2, st3);
        }
        let r = self.run_list(fuel - 1, obj, &after_ids, 0, &full, s.ret_type, acc);
        proof {
            lemma_dispatch_frame_trans(*old(self), st3, *self);
            if quiet2 {
                let prq = quiet_pipeline(
                    old(self).registry,
                    hs,
                    signal_name@,
                    s.flags.run_first,
                    s.class_handler,
                    full@,
                    s.ret_type,
                );
                assert(st1 == st0);
                assert(st3 == st2);
                assert(before_ids@.skip(0) =~= before_ids@);
                assert(after_ids@.skip(0) =~= after_ids@);
                let ghost_a0: Option<Value> = if s.flags.run_first {
                    match class_stage(old(self).registry, s.class_handler->0, full@, s.ret_type) {
                        Ok(v) => v,
                        Err(()) => None,
                    }
                } else {
                    None
                };
                let p1 = passive_run(old(self).registry, hs, before_ids@, full@, s.ret_type, ghost_a0);
                assert(p1.1 is Ok);
                let a1 = p1.1->Ok_0;
                let p2 = passive_run(old(self).registry, hs, after_ids@, full@, s.ret_type, acc);
                assert(prq.0 == p1.0 + p2.0);
                assert(prq.1 == p2.1);
                assert forall|m: int|
                    0 <= m < prq.0.len() implies (#[trigger] self.journal@[old(self).journal@.len() + m]).object == obj && self.journal@[old(self).journal@.len() + m].handler == prq.0[m] && self.journal@[old(self).journal@.len() + m].args@ == full@ by {
                    if m < p1.0.len() {
                        assert(prq.0[m] == p1.0[m]);
                        assert(st2.journal@[old(self).journal@.len() + m].object == obj);
                        assert(self.journal@.subrange(0, st2.journal@.len() as int)
                            == st2.journal@);
                        assert(self.journal@.subrange(0, st2.journal@.len() as int)[old(self).journal@.len() + m] == self.journal@[old(self).journal@.len() + m]);
                    } else {
                        assert(prq.0[m] == p2.0[m - p1.0.len()]);
                        assert(self.journal@[st3.journal@.len() + (m - p1.0.len())].object
                            == obj);
                        assert(st3.journal@.len() + (m - p1.0.len()) == old(self).journal@.len()
                            + m);
                    }
                }
            }
            if quiet {
                let pr1 = passive_run(self.registry, hs, before_ids@, full@, s.ret_type, None);
                let prb = passive_run(self.registry, hs, both, full@, s.ret_type, None);
                assert(before_ids@.skip(0) =~= before_ids@);
                assert(after_ids@.skip(0) =~= after_ids@);
                assert(st3 == st2);
                match pr1.1 {
                    Err(()) => {
                        assert(false);
                    },
                    Ok(acc1) => {
                        assert(acc == acc1);
                        assert(st2.instances@[obj as int].handlers@ == hs);
                        let pr2 = passive_run(
                            self.registry,
                            hs,
                            after_ids@,
                            full@,
                            s.ret_type,
                            acc1,
                        );
                        assert(prb.0 == pr1.0 + pr2.0);
                        assert(prb.1 == pr2.1);
                        assert forall|m: int|
                            0 <= m < prb.0.len() implies (#[trigger] self.journal@[old(self).journal@.len() + m]).object == obj && self.journal@[old(self).journal@.len() + m].handler == prb.0[m] && self.journal@[old(self).journal@.len() + m].args@ == full@ by {
                            if m < pr1.0.len() {
                                assert(prb.0[m] == pr1.0[m]);
                                assert(st2.journal@[old(self).journal@.len() + m].object == obj);
                                assert(self.journal@.subrange(0, st2.journal@.len() as int)
                                    == st2.journal@);
                                assert(self.journal@.subrange(0, st2.journal@.len() as int)[old(self).journal@.len() + m] == self.journal@[old(self).journal@.len() + m]);
                            } else {
                                assert(prb.0[m] == pr2.0[m - pr1.0.len()]);
                                assert(self.journal@[st2.journal@.len() + (m
                                    - pr1.0.len())].object == obj);
                                assert(st2.journal@.len() + (m - pr1.0.len()) == old(self).journal@.len() + m);
                            }
                        }
                    },
                }
            }
        }
        r
    }

    /// A property write with an explicit re-entrancy budget.
    fn set_property_fueled(&mut self, fuel: u64, obj: usize, name: &str, value: &Value) -> (r:
        Result<(), ObjectError>)
        requires
            old(self).wf(),
            obj < old(self).instances@.len(),
            old(self).instances@[obj as int].alive,
        ensures
            final(self).wf(),
            dispatch_frame(*old(self), *final(self)),
            fuel == 0 ==> *final(self) == *old(self) && crate::error::is_operation_failed(r),
            fuel >= 1 ==> ({
                let ty = old(self).instances@[obj as int].ty;
                let table = old(self).registry.all_props(ty);
                match find_prop_in(table, name@) {
                    None => *final(self) == *old(self) && crate::error::is_property_not_found(
                        r,
                        name@,
                        old(self).registry.name_of_type(ty),
                    ),
                    Some(k) => {
                        let p = table[k];
                        if !p.spec.flags.writable || p.spec.flags.construct_only {
                            *final(self) == *old(self) && crate::error::is_property_not_writable(
                                r,
                                name@,
                                old(self).registry.name_of_type(ty),
                            )
                        } else if !old(self).registry.is_a_spec(
                            value.value_type(),
                            p.spec.value_type,
                        ) {
                            *final(self) == *old(self) && crate::error::is_type_mismatch(
                                r,
                                name@,
                                old(self).registry.name_of_type(ty),
                                old(self).registry.name_of_type(p.spec.value_type),
                                old(self).registry.name_of_type(value.value_type()),
                            )
                        } else if !p.spec.in_range(*value) && !p.spec.flags.lax_validation {
                            *final(self) == *old(self) && crate::error::is_value_out_of_range(
                                r,
                                name@,
                                old(self).registry.name_of_type(ty),
                            )
                        } else {
                            // The write was accepted.  When the handlers it
                            // can reach merely record their invocation, the
                            // outcome is exact: the slot holds the validated
                            // value (unless the declaring type's setter
                            // ignores values), and notification fired once
                            // per matching handler.
                            let stored = p.spec.clamp_spec(*value);
                            let hs = old(self).instances@[obj as int].handlers@;
                            let nids = matching_notify_ids(hs, name@);
                            let nrun = record_run(hs, nids);
                            &&& ((p.setter is Store && all_record_ids(hs, nids)) ==> ({
                                &&& r is Ok
                                &&& same_except(
                                    old(self).instances@,
                                    final(self).instances@,
                                    obj as int,
                                )
                                &&& final(self).instances@[obj as int].props@ == old(
                                    self,
                                ).instances@[obj as int].props@.update(k, stored)
                                &&& final(self).journal@.len() == old(self).journal@.len()
                                    + nrun.len()
                                &&& (forall|m: int|
                                    0 <= m < nrun.len() ==> ({
                                        let e = #[trigger] final(self).journal@[old(
                                            self,
                                        ).journal@.len() + m];
                                        &&& e.object == obj
                                        &&& e.handler == nrun[m]
                                        &&& e.args@.len() == 2
                                        &&& e.args@[0] == Value::Object(ty, Some(obj))
                                        &&& (match e.args@[1] {
                                            Value::Str(Some(sn)) => sn@ == name@,
                                            _ => false,
                                        })
                                    }))
                            }))
                            &&& ((p.setter is Ignore && all_record_ids(hs, nids)) ==> ({
                                &&& r is Ok
                                &&& final(self).instances@ == old(self).instances@
                                &&& final(self).journal@.len() == old(self).journal@.len()
                                    + nrun.len()
                            }))
                            &&& ((match p.setter {
                                crate::subclass::PropertySetHook::StoreAndEmit(sig) => ({
                                    let both = matching_signal_ids(hs, sig@, false)
                                        + matching_signal_ids(hs, sig@, true);
                                    &&& fuel >= 2
                                    &&& all_record_ids(hs, nids)
                                    &&& all_record_ids(hs, both)
                                    &&& (match crate::registry::find_signal_in(
                                        old(self).registry.all_signals(ty),
                                        sig@,
                                    ) {
                                        Some(si2) => {
                                            let s2 = old(self).registry.all_signals(ty)[si2];
                                            &&& s2.class_handler is None
                                            &&& s2.ret_type == Type::Unit
                                            &&& s2.param_types@ == seq![p.spec.value_type]
                                        },
                                        None => false,
                                    })
                                }),
                                _ => false,
                            }) ==> ({
                                let srun = record_run(
                                    hs,
                                    matching_signal_ids(
                                        hs,
                                        p.setter->StoreAndEmit_0@,
                                        false,
                                    ) + matching_signal_ids(hs, p.setter->StoreAndEmit_0@, true),
                                );
                                &&& r is Ok
                                &&& same_except(
                                    old(self).instances@,
                                    final(self).instances@,
                                    obj as int,
                                )
                                &&& final(self).instances@[obj as int].props@ == old(
                                    self,
                                ).instances@[obj as int].props@.update(k, stored)
                                &&& final(self).journal@.len() == old(self).journal@.len()
                                    + srun.len() + nrun.len()
                                &&& (forall|m: int|
                                    0 <= m < srun.len() ==> ({
                                        let e = #[trigger] final(self).journal@[old(self).journal@.len() + m];
                                        &&& e.object == obj
                                        &&& e.handler == srun[m]
                                        &&& e.args@.len() == 2
                                        &&& e.args@[0] == Value::Object(ty, Some(obj))
                                        &&& e.args@[1] == crate::value::tag_at(
                                            stored,
                                            p.spec.value_type,
                                        )
                                    }))
                                &&& (forall|m: int|
                                    0 <= m < nrun.len() ==> ({
                                        let e = #[trigger] final(self).journal@[old(self).journal@.len() + srun.len() + m];
                                        &&& e.object == obj
                                        &&& e.handler == nrun[m]
                                        &&& e.args@.len() == 2
                                        &&& e.args@[0] == Value::Object(ty, Some(obj))
                                        &&& (match e.args@[1] {
                                            Value::Str(Some(sn)) => sn@ == name@,
                                            _ => false,
                                        })
                                    }))
                            }))
                            &&& ((p.setter is Store && fuel >= 4 && p.spec.flags.readable
                                && nids.len() == 1 && (match handler_by_id(hs, nids[0]) {
                                Some(j) => {
                                    match hs[j].behavior {
                                        HandlerBehavior::SyncProperty {
                                            source,
                                            source_property,
                                            target,
                                            target_property,
                                            transform,
                                            peer,
                                        } => {
                                            &&& peer is None
                                            &&& source == obj
                                            &&& source_property@ == name@
                                            &&& target != obj
                                            &&& (match crate::signals::apply_transform_spec(
                                                transform,
                                                crate::value::tag_at(stored, p.spec.value_type),
                                            ) {
                                                Some(tv) => sync_write_ready(
                                                    *old(self),
                                                    target,
                                                    target_property@,
                                                    tv,
                                                ),
                                                None => false,
                                            })
                                        },
                                        _ => false,
                                    }
                                },
                                None => false,
                            })) ==> ({
                                let j = handler_by_id(hs, nids[0])->0;
                                match hs[j].behavior {
                                    HandlerBehavior::SyncProperty {
                                        target,
                                        target_property,
                                        transform,
                                        ..
                                    } => {
                                        let tv = crate::signals::apply_transform_spec(
                                            transform,
                                            crate::value::tag_at(stored, p.spec.value_type),
                                        )->0;
                                        let ttable = old(self).registry.all_props(
                                            old(self).instances@[target as int].ty,
                                        );
                                        let kt = find_prop_in(ttable, target_property@)->0;
                                        &&& r is Ok
                                        &&& final(self).instances@.len() == old(self).instances@.len()
                                        &&& final(self).instances@[obj as int].props@ == old(self).instances@[obj as int].props@.update(k, stored)
                                        &&& final(self).instances@[target as int].props@ == old(self).instances@[target as int].props@.update(kt, ttable[kt].spec.clamp_spec(tv))
                                        &&& (forall|m: int|
                                            0 <= m < old(self).instances@.len() && m != obj
                                                && m != target ==> final(self).instances@[m] == old(self).instances@[m])
                                    },
                                    _ => false,
                                }
                            }))
                        }
                    },
                }
            }),
        decreases fuel, 0nat, 2nat,
    {
        proof {
            lemma_dispatch_frame_refl(*old(self));
        }
        if fuel == 0 {
            return Err(ObjectError::OperationFailed {
                message: String::from_str("property writes nested too deeply"),
            });
        }
        let ty = self.instances[obj].ty;
        let (slot, p) = match self.registry.find_property(ty, name) {
            None => {
                return Err(ObjectError::PropertyNotFound {
                    property: String::from_str(name),
                    owner: self.registry.name(ty),
                });
            },
            Some(sp) => sp,
        };
        if !p.spec.flags.writable || p.spec.flags.construct_only {
            return Err(ObjectError::PropertyNotWritable {
                property: String::from_str(name),
                owner: self.registry.name(ty),
            });
        }
        let vt = value.type_();
        if !self.registry.is_a(vt, p.spec.value_type) {
            return Err(ObjectError::TypeMismatch {
                property: String::from_str(name),
                owner: self.registry.name(ty),
                expected: self.registry.name(p.spec.value_type),
                got: self.registry.name(vt),
            });
        }
        proof {
            lemma_find_prop_in(self.registry.all_props(ty), name@);
            self.registry.lemma_all_props_wf(ty);
            if !(value is Object) && value.value_type() != p.spec.value_type {
                self.registry.lemma_is_a_valid(value.value_type(), p.spec.value_type);
            }
        }
        let (stored, changed) = p.spec.validate(value);
        if changed && !p.spec.flags.lax_validation {
            return Err(ObjectError::ValueOutOfRange {
                property: String::from_str(name),
                owner: self.registry.name(ty),
            });
        }
        // Commit through the declaring type's setter hook.
        let emit_after: Option<String> = match &p.setter {
            crate::subclass::PropertySetHook::Store => {
                let stored_copy = value_clone(&stored);
                proof {
                    assert(self.wf_instance(obj as int));
                }
                let inst = &mut self.instances[obj];
                inst.props[slot] = stored_copy;
                None
            },
            crate::subclass::PropertySetHook::StoreAndEmit(sig) => {
                let stored_copy = value_clone(&stored);
                proof {
                    assert(self.wf_instance(obj as int));
                }
                let inst = &mut self.instances[obj];
                inst.props[slot] = stored_copy;
                Some(sig.clone())
            },
            crate::subclass::PropertySetHook::Ignore => None,
        };
        let ghost st0 = *self;
        proof {
            assert forall|j: int| 0 <= j < self.instances@.len() implies self.wf_instance(j) by {
                assert(old(self).wf_instance(j));
            }
            assert(dispatch_frame(*old(self), st0)) by {
                assert(st0.journal@.subrange(0, old(self).journal@.len() as int) =~= old(self).journal@);
            }
            assert(same_except(old(self).instances@, st0.instances@, obj as int));
            match &p.setter {
                crate::subclass::PropertySetHook::Ignore => {
                    assert(st0.instances@ == old(self).instances@);
                },
                _ => {
                    assert(st0.instances@[obj as int].props@ == old(self).instances@[obj
                        as int].props@.update(slot as int, stored));
                },
            }
            assert(st0.journal@ == old(self).journal@);
            assert(st0.instances@[obj as int].handlers@ == old(self).instances@[obj
                as int].handlers@);
        }
        // The declaring type's setter may emit a signal carrying the value.
        let ghost hs0 = old(self).instances@[obj as int].handlers@;
        let ghost mut emit_args_view: Seq<Value> = Seq::<Value>::empty();
        match emit_after {
            Some(sig) => {
                let mut eargs: Vec<Value> = Vec::new();
                eargs.push(crate::value::tag_value_at(&stored, p.spec.value_type));
                proof {
                    emit_args_view = eargs@;
                    assert(emit_args_view =~= seq![
                        crate::value::tag_at(stored, p.spec.value_type),
                    ]);
                }
                let ghost both = matching_signal_ids(hs0, sig@, false) + matching_signal_ids(
                    hs0,
                    sig@,
                    true,
                );
                proof {
                    if fuel >= 2 && all_record_ids(hs0, both) {
                        let full_e = seq![Value::Object(ty, Some(obj))] + eargs@;
                        lemma_record_run(old(self).registry, hs0, both, full_e);
                        match crate::registry::find_signal_in(
                            old(self).registry.all_signals(ty),
                            sig@,
                        ) {
                            Some(si2) => {
                                let s2 = old(self).registry.all_signals(ty)[si2];
                                if s2.class_handler is None && s2.ret_type == Type::Unit
                                    && s2.param_types@ == seq![p.spec.value_type] {
                                    lemma_first_bad_arg(s2.param_types@, eargs@);
                                }
                            },
                            None => {},
                        }
                    }
                }
                match self.emit_fueled(fuel - 1, obj, sig.as_str(), &eargs) {
                    Ok(_) => {},
                    Err(e) => {
                        proof {
                            lemma_dispatch_frame_trans(*old(self), st0, *self);
                        }
                        return Err(e);
                    },
                }
            },
            None => {},
        }
        let ghost st1 = *self;
        proof {
            lemma_dispatch_frame_trans(*old(self), st0, st1);
        }
        // Change notification fires exactly once per accepted write.
        let notify_ids = self.collect_notify_ids(obj, name);
        let mut nargs: Vec<Value> = Vec::new();
        nargs.push(Value::Object(ty, Some(obj)));
        nargs.push(Value::Str(Some(String::from_str(name))));
        let inner_fuel = if fuel == 0 {
            0
        } else {
            fuel - 1
        };
        let ghost hs = old(self).instances@[obj as int].handlers@;
        let ghost nids = matching_notify_ids(hs, name@);
        proof {
            assert(st1.instances@[obj as int].handlers@ == hs);
            assert(notify_ids@ == nids);
            assert(nargs@.len() == 2);
            assert(nargs@[0] == Value::Object(ty, Some(obj)));
            assert(match nargs@[1] {
                Value::Str(Some(sn)) => sn@ == name@,
                _ => false,
            });
            if all_record_ids(hs, nids) {
                lemma_record_run(old(self).registry, hs, nids, nargs@);
                assert(nids.skip(0) =~= nids);
            }
        }
        let r = self.run_list(inner_fuel, obj, &notify_ids, 0, &nargs, Type::Unit, None);
        proof {
            lemma_dispatch_frame_trans(*old(self), st1, *self);
            if all_record_ids(hs, nids) {
                let nrun = record_run(hs, nids);
                let prn = passive_run(old(self).registry, hs, nids, nargs@, Type::Unit, None);
                assert(prn.0 == nrun && prn.1 == Result::<Option<Value>, ()>::Ok(
                    Option::<Value>::None,
                ));
                assert(self.instances@ == st1.instances@);
                assert(self.journal@.len() == st1.journal@.len() + nrun.len());
                assert forall|m: int|
                    0 <= m < nrun.len() implies ({
                    let e = #[trigger] self.journal@[st1.journal@.len() + m];
                    &&& e.object == obj
                    &&& e.handler == nrun[m]
                    &&& e.args@ == nargs@
                }) by {}
            }
            // With a store-and-emit setter over recording handlers, the
            // emitted invocations are exact too.
            match p.setter {
                crate::subclass::PropertySetHook::StoreAndEmit(signame) => {
                    let sigv = signame@;
                    let bothg = matching_signal_ids(hs, sigv, false) + matching_signal_ids(
                        hs,
                        sigv,
                        true,
                    );
                    let cond = fuel >= 2 && all_record_ids(hs, nids) && all_record_ids(hs, bothg)
                        && (match crate::registry::find_signal_in(
                        old(self).registry.all_signals(ty),
                        sigv,
                    ) {
                        Some(si2) => {
                            let s2 = old(self).registry.all_signals(ty)[si2];
                            s2.class_handler is None && s2.ret_type == Type::Unit
                                && s2.param_types@ == seq![p.spec.value_type]
                        },
                        None => false,
                    });
                    if cond {
                        let full_e = seq![Value::Object(ty, Some(obj))] + emit_args_view;
                        lemma_record_run(old(self).registry, hs, bothg, full_e);
                        let srun = record_run(hs, bothg);
                        assert(emit_args_view[0] == crate::value::tag_at(
                            stored,
                            p.spec.value_type,
                        ));
                        lemma_first_bad_arg(seq![p.spec.value_type], emit_args_view);
                        assert(st1.journal@.len() == old(self).journal@.len() + srun.len());
                        assert forall|m: int|
                            0 <= m < srun.len() implies ({
                            let e = #[trigger] self.journal@[old(self).journal@.len() + m];
                            &&& e.object == obj
                            &&& e.handler == srun[m]
                            &&& e.args@.len() == 2
                            &&& e.args@[0] == Value::Object(ty, Some(obj))
                            &&& e.args@[1] == crate::value::tag_at(stored, p.spec.value_type)
                        }) by {
                            assert(st1.journal@[st0.journal@.len() + m].object == obj);
                            assert(st1.journal@[st0.journal@.len() + m].args@ == full_e);
                            assert(full_e[0] == Value::Object(ty, Some(obj)));
                            assert(full_e[1] == emit_args_view[0]);
                            assert(self.journal@.subrange(0, st1.journal@.len() as int)
                                == st1.journal@);
                            assert(self.journal@.subrange(0, st1.journal@.len() as int)[old(
                                self,
                            ).journal@.len() + m] == self.journal@[old(self).journal@.len() + m]);
                        }
                        assert forall|m: int|
                            0 <= m < record_run(hs, nids).len() implies ({
                            let e = #[trigger] self.journal@[old(self).journal@.len() + srun.len()
                                + m];
                            &&& e.object == obj
                            &&& e.handler == record_run(hs, nids)[m]
                            &&& e.args@.len() == 2
                            &&& e.args@[0] == Value::Object(ty, Some(obj))
                            &&& (match e.args@[1] {
                                Value::Str(Some(sn)) => sn@ == name@,
                                _ => false,
                            })
                        }) by {
                            assert(self.journal@[st1.journal@.len() + m].object == obj);
                            assert(old(self).journal@.len() + srun.len() + m == st1.journal@.len()
                                + m);
                        }
                    }
                },
                _ => {},
            }
            // A single ready synchronization handler on this property: the
            // nested write lands on the target exactly.
            if p.setter is Store && fuel >= 4 && p.spec.flags.readable && nids.len() == 1 {
                match handler_by_id(hs, nids[0]) {
                    Some(j) => {
                        match hs[j].behavior {
                            HandlerBehavior::SyncProperty {
                                source,
                                source_property,
                                target,
                                target_property,
                                transform,
                                peer,
                            } => {
                                let ready = peer is None && source == obj && source_property@
                                    == name@ && target != obj && (
                                match crate::signals::apply_transform_spec(
                                    transform,
                                    crate::value::tag_at(stored, p.spec.value_type),
                                ) {
                                    Some(tv) => sync_write_ready(
                                        *old(self),
                                        target,
                                        target_property@,
                                        tv,
                                    ),
                                    None => false,
                                });
                                if ready {
                                    let tv = crate::signals::apply_transform_spec(
                                        transform,
                                        crate::value::tag_at(stored, p.spec.value_type),
                                    )->0;
                                    // The token in the snapshot names a
                                    // connected, unblocked handler.
                                    lemma_matching_notify_member(hs, name@);
                                    assert(notify_token_from_matching(hs, name@, 0));
                                    let j2 = choose|j2: int|
                                        0 <= j2 < hs.len() && matching_notify_ids(hs, name@)[0]
                                            == (#[trigger] hs[j2]).id && handler_matches_notify(
                                            hs[j2],
                                            name@,
                                        );
                                    assert(old(self).wf_instance(obj as int));
                                    lemma_handler_by_id(hs, nids[0]);
                                    assert(hs[j as int].id == nids[0]);
                                    assert(j == j2) by {
                                        if j < j2 {
                                            assert(hs[j as int].id != hs[j2].id);
                                        }
                                        if j2 < j {
                                            assert(hs[j2].id != hs[j as int].id);
                                        }
                                    }
                                    assert(hs[j as int].connected && hs[j as int].block_count
                                        == 0);
                                    // No emission happened: the state the
                                    // notification ran on is the committed
                                    // one.
                                    assert(st1 == st0);
                                    // The handler reads the just-committed
                                    // source value.
                                    lemma_find_prop_in(old(self).registry.all_props(ty), name@);
                                    assert(st1.instances@[obj as int].props@ == old(
                                        self,
                                    ).instances@[obj as int].props@.update(slot as int, stored));
                                    assert(st1.read_prop(obj as int, name@) == Some(
                                        crate::value::tag_at(stored, p.spec.value_type),
                                    ));
                                    assert(st1.instances@[target as int] == old(
                                        self,
                                    ).instances@[target as int]);
                                    assert(sync_write_ready(st1, target, target_property@, tv));
                                    assert(sync_behavior_ready(st1, hs[j as int].behavior));
                                    assert(nids.skip(0) =~= nids);
                                    assert(st1.instances@[obj as int].handlers@ == hs);
                                    // The dispatch applied the step.
                                    assert(sync_applied(st1, *self, hs[j as int].behavior));
                                    assert(st1.read_prop(obj as int, name@)->0
                                        == crate::value::tag_at(stored, p.spec.value_type));
                                    assert(self.instances@[obj as int] == st1.instances@[obj
                                        as int]);
                                    assert forall|m: int|
                                        0 <= m < old(self).instances@.len() && m != obj && m
                                            != target implies self.instances@[m] == old(
                                        self,
                                    ).instances@[m] by {
                                        assert(self.instances@[m] == st1.instances@[m]);
                                        assert(st1.instances@[m] == old(self).instances@[m]);
                                    }
                                }
                            },
                            _ => {},
                        }
                    },
                    None => {},
                }
            }
        }
        match r {
            Ok(_) => Ok(()),
            Err(e) => Err(e),
        }
    }

    /// Emits a named signal on the instance behind the handle: the arguments
    /// are checked against the registration, the connected handlers run in
    /// connection order around the class default handler, and the last
    /// conforming return value comes back for signals with a return type.
    pub fn emit(&mut self, o: &Object, signal_name: &str, args: &Vec<Value>) -> (r: Result<
        Option<Value>,
        ObjectError,
    >)
        requires
            old(self).wf(),
            old(self).valid_obj(*o),
        ensures
            final(self).wf(),
            dispatch_frame(*old(self), *final(self)),
            ({
                let ty = old(self).instances@[o.id as int].ty;
                let sigs = old(self).registry.all_signals(ty);
                match crate::registry::find_signal_in(sigs, signal_name@) {
                    None => *final(self) == *old(self) && crate::error::is_signal_not_found(
                        r,
                        signal_name@,
                        old(self).registry.name_of_type(ty),
                    ),
                    Some(si) => {
                        let s = sigs[si];
                        if args@.len() != s.param_types@.len() {
                            *final(self) == *old(self) && crate::error::is_argument_count_mismatch(
                                r,
                                signal_name@,
                                s.param_types@.len() as int,
                                args@.len() as int,
                            )
                        } else {
                            match first_bad_arg(s.param_types@, args@) {
                                Some(bi) => *final(self) == *old(self)
                                    && crate::error::is_argument_type_mismatch(r, signal_name@, bi),
                                None => {
                                    let hs = old(self).instances@[o.id as int].handlers@;
                                    let both = matching_signal_ids(hs, signal_name@, false)
                                        + matching_signal_ids(hs, signal_name@, true);
                                    let full = seq![Value::Object(ty, Some(o.id))] + args@;
                                    &&& ((s.class_handler is None && all_passive_ids(hs, both)) ==> ({
                                        let pr = passive_run(
                                            old(self).registry,
                                            hs,
                                            both,
                                            full,
                                            s.ret_type,
                                            None,
                                        );
                                        &&& final(self).instances@ == old(self).instances@
                                        &&& final(self).journal@.len() == old(self).journal@.len()
                                            + pr.0.len()
                                        &&& (forall|m: int|
                                            0 <= m < pr.0.len() ==> (#[trigger] final(self).journal@[old(self).journal@.len() + m]).object
                                                == o.id && final(self).journal@[old(self).journal@.len() + m].handler == pr.0[m]
                                                && final(self).journal@[old(self).journal@.len() + m].args@ == full)
                                        &&& (match pr.1 {
                                            Ok(v) => r == Result::<
                                                Option<Value>,
                                                ObjectError,
                                            >::Ok(v),
                                            Err(()) => crate::error::is_operation_failed(r),
                                        })
                                    }))
                                    // A passive class default handler keeps
                                    // the emission exact too: it accumulates
                                    // at its declared stage and is never
                                    // journaled.
                                    &&& (((match s.class_handler {
                                        Some(ch) => ch.is_passive(),
                                        None => false,
                                    }) && all_passive_ids(hs, both)) ==> ({
                                        let pr = quiet_pipeline(
                                            old(self).registry,
                                            hs,
                                            signal_name@,
                                            s.flags.run_first,
                                            s.class_handler,
                                            full,
                                            s.ret_type,
                                        );
                                        &&& final(self).instances@ == old(self).instances@
                                        &&& final(self).journal@.len() == old(self).journal@.len() + pr.0.len()
                                        &&& (forall|m: int|
                                            0 <= m < pr.0.len() ==> (#[trigger] final(self).journal@[old(self).journal@.len() + m]).object == o.id
                                                && final(self).journal@[old(self).journal@.len() + m].handler == pr.0[m] && final(self).journal@[old(self).journal@.len() + m].args@ == full)
                                        &&& (match pr.1 {
                                            Ok(v) => r == Result::<
                                                Option<Value>,
                                                ObjectError,
                                            >::Ok(v),
                                            Err(()) => crate::error::is_operation_failed(r),
                                        })
                                    }))
                                },
                            }
                        }
                    },
                }
            }),
    {
        self.emit_fueled(DISPATCH_FUEL, o.id, signal_name, args)
    }

    /// Writes a property of the instance behind the handle: the property
    /// must exist, be writable and not construct-only, the value must be of
    /// the declared type or a subtype, and out-of-range values are rejected
    /// unless the property validates laxly, in which case they are clamped.
    /// A successful write commits through the declaring type's setter hook
    /// and then fires change notification exactly once.
    pub fn set_property(&mut self, o: &Object, name: &str, value: &Value) -> (r: Result<
        (),
        ObjectError,
    >)
        requires
            old(self).wf(),
            old(self).valid_obj(*o),
        ensures
            final(self).wf(),
            dispatch_frame(*old(self), *final(self)),
            ({
                let ty = old(self).instances@[o.id as int].ty;
                let table = old(self).registry.all_props(ty);
                match find_prop_in(table, name@) {
                    None => *final(self) == *old(self) && crate::error::is_property_not_found(
                        r,
                        name@,
                        old(self).registry.name_of_type(ty),
                    ),
                    Some(k) => {
                        let p = table[k];
                        if !p.spec.flags.writable || p.spec.flags.construct_only {
                            *final(self) == *old(self) && crate::error::is_property_not_writable(
                                r,
                                name@,
                                old(self).registry.name_of_type(ty),
                            )
                        } else if !old(self).registry.is_a_spec(
                            value.value_type(),
                            p.spec.value_type,
                        ) {
                            *final(self) == *old(self) && crate::error::is_type_mismatch(
                                r,
                                name@,
                                old(self).registry.name_of_type(ty),
                                old(self).registry.name_of_type(p.spec.value_type),
                                old(self).registry.name_of_type(value.value_type()),
                            )
                        } else if !p.spec.in_range(*value) && !p.spec.flags.lax_validation {
                            *final(self) == *old(self) && crate::error::is_value_out_of_range(
                                r,
                                name@,
                                old(self).registry.name_of_type(ty),
                            )
                        } else {
                            let stored = p.spec.clamp_spec(*value);
                            let hs = old(self).instances@[o.id as int].handlers@;
                            let nids = matching_notify_ids(hs, name@);
                            let nrun = record_run(hs, nids);
                            &&& ((p.setter is Store && all_record_ids(hs, nids)) ==> ({
                                &&& r is Ok
                                &&& same_except(
                                    old(self).instances@,
                                    final(self).instances@,
                                    o.id as int,
                                )
                                &&& final(self).instances@[o.id as int].props@ == old(self).instances@[o.id as int].props@.update(k, stored)
                                &&& final(self).journal@.len() == old(self).journal@.len()
                                    + nrun.len()
                                &&& (forall|m: int|
                                    0 <= m < nrun.len() ==> ({
                                        let e = #[trigger] final(self).journal@[old(self).journal@.len() + m];
                                        &&& e.object == o.id
                                        &&& e.handler == nrun[m]
                                        &&& e.args@.len() == 2
                                        &&& e.args@[0] == Value::Object(ty, Some(o.id))
                                        &&& (match e.args@[1] {
                                            Value::Str(Some(sn)) => sn@ == name@,
                                            _ => false,
                                        })
                                    }))
                            }))
                            &&& ((p.setter is Ignore && all_record_ids(hs, nids)) ==> ({
                                &&& r is Ok
                                &&& final(self).instances@ == old(self).instances@
                                &&& final(self).journal@.len() == old(self).journal@.len()
                                    + nrun.len()
                            }))
                            &&& ((match p.setter {
                                crate::subclass::PropertySetHook::StoreAndEmit(sig) => ({
                                    let both = matching_signal_ids(hs, sig@, false)
                                        + matching_signal_ids(hs, sig@, true);
                                    &&& all_record_ids(hs, nids)
                                    &&& all_record_ids(hs, both)
                                    &&& (match crate::registry::find_signal_in(
                                        old(self).registry.all_signals(ty),
                                        sig@,
                                    ) {
                                        Some(si2) => {
                                            let s2 = old(self).registry.all_signals(ty)[si2];
                                            &&& s2.class_handler is None
                                            &&& s2.ret_type == Type::Unit
                                            &&& s2.param_types@ == seq![p.spec.value_type]
                                        },
                                        None => false,
                                    })
                                }),
                                _ => false,
                            }) ==> ({
                                let srun = record_run(
                                    hs,
                                    matching_signal_ids(
                                        hs,
                                        p.setter->StoreAndEmit_0@,
                                        false,
                                    ) + matching_signal_ids(hs, p.setter->StoreAndEmit_0@, true),
                                );
                                &&& r is Ok
                                &&& same_except(
                                    old(self).instances@,
                                    final(self).instances@,
                                    o.id as int,
                                )
                                &&& final(self).instances@[o.id as int].props@ == old(self).instances@[o.id as int].props@.update(k, stored)
                                &&& final(self).journal@.len() == old(self).journal@.len()
                                    + srun.len() + nrun.len()
                                &&& (forall|m: int|
                                    0 <= m < srun.len() ==> ({
                                        let e = #[trigger] final(self).journal@[old(self).journal@.len() + m];
                                        &&& e.object == o.id
                                        &&& e.handler == srun[m]
                                        &&& e.args@.len() == 2
                                        &&& e.args@[0] == Value::Object(ty, Some(o.id))
                                        &&& e.args@[1] == crate::value::tag_at(
                                            stored,
                                            p.spec.value_type,
                                        )
                                    }))
                                &&& (forall|m: int|
                                    0 <= m < nrun.len() ==> ({
                                        let e = #[trigger] final(self).journal@[old(self).journal@.len() + srun.len() + m];
                                        &&& e.object == o.id
                                        &&& e.handler == nrun[m]
                                        &&& e.args@.len() == 2
                                        &&& e.args@[0] == Value::Object(ty, Some(o.id))
                                        &&& (match e.args@[1] {
                                            Value::Str(Some(sn)) => sn@ == name@,
                                            _ => false,
                                        })
                                    }))
                            }))
                            &&& ((p.setter is Store && p.spec.flags.readable
                                && nids.len() == 1 && (match handler_by_id(hs, nids[0]) {
                                Some(j) => {
                                    match hs[j].behavior {
                                        HandlerBehavior::SyncProperty {
                                            source,
                                            source_property,
                                            target,
                                            target_property,
                                            transform,
                                            peer,
                                        } => {
                                            &&& peer is None
                                            &&& source == o.id
                                            &&& source_property@ == name@
                                            &&& target != o.id
                                            &&& (match crate::signals::apply_transform_spec(
                                                transform,
                                                crate::value::tag_at(stored, p.spec.value_type),
                                            ) {
                                                Some(tv) => sync_write_ready(
                                                    *old(self),
                                                    target,
                                                    target_property@,
                                                    tv,
                                                ),
                                                None => false,
                                            })
                                        },
                                        _ => false,
                                    }
                                },
                                None => false,
                            })) ==> ({
                                let j = handler_by_id(hs, nids[0])->0;
                                match hs[j].behavior {
                                    HandlerBehavior::SyncProperty {
                                        target,
                                        target_property,
                                        transform,
                                        ..
                                    } => {
                                        let tv = crate::signals::apply_transform_spec(
                                            transform,
                                            crate::value::tag_at(stored, p.spec.value_type),
                                        )->0;
                                        let ttable = old(self).registry.all_props(
                                            old(self).instances@[target as int].ty,
                                        );
                                        let kt = find_prop_in(ttable, target_property@)->0;
                                        &&& r is Ok
                                        &&& final(self).instances@.len() == old(self).instances@.len()
                                        &&& final(self).instances@[o.id as int].props@ == old(self).instances@[o.id as int].props@.update(k, stored)
                                        &&& final(self).instances@[target as int].props@ == old(self).instances@[target as int].props@.update(kt, ttable[kt].spec.clamp_spec(tv))
                                        &&& (forall|m: int|
                                            0 <= m < old(self).instances@.len() && m != o.id
                                                && m != target ==> final(self).instances@[m] == old(self).instances@[m])
                                    },
                                    _ => false,
                                }
                            }))
                        }
                    },
                }
            }),
    {
        self.set_property_fueled(DISPATCH_FUEL, o.id, name, value)
    }

    /// Fires change notification for one property of the instance by hand,
    /// invoking the matching notification handlers once each.
    pub fn notify(&mut self, o: &Object, property_name: &str) -> (r: Result<(), ObjectError>)
        requires
            old(self).wf(),
            old(self).valid_obj(*o),
        ensures
            final(self).wf(),
            dispatch_frame(*old(self), *final(self)),
            ({
                let hs = old(self).instances@[o.id as int].handlers@;
                let nids = matching_notify_ids(hs, property_name@);
                let nrun = record_run(hs, nids);
                all_record_ids(hs, nids) ==> ({
                    &&& r is Ok
                    &&& final(self).instances@ == old(self).instances@
                    &&& final(self).journal@.len() == old(self).journal@.len() + nrun.len()
                    &&& (forall|m: int|
                        0 <= m < nrun.len() ==> ({
                            let e = #[trigger] final(self).journal@[old(self).journal@.len() + m];
                            &&& e.object == o.id
                            &&& e.handler == nrun[m]
                            &&& e.args@.len() == 2
                            &&& (match e.args@[1] {
                                Value::Str(Some(sn)) => sn@ == property_name@,
                                _ => false,
                            })
                        }))
                })
            }),
    {
        let ty = self.instances[o.id].ty;
        let notify_ids = self.collect_notify_ids(o.id, property_name);
        let mut nargs: Vec<Value> = Vec::new();
        nargs.push(Value::Object(ty, Some(o.id)));
        nargs.push(Value::Str(Some(String::from_str(property_name))));
        let ghost hs = old(self).instances@[o.id as int].handlers@;
        let ghost nids = matching_notify_ids(hs, property_name@);
        proof {
            assert(notify_ids@ == nids);
            if all_record_ids(hs, nids) {
                lemma_record_run(old(self).registry, hs, nids, nargs@);
                assert(nids.skip(0) =~= nids);
            }
        }
        match self.run_list(DISPATCH_FUEL, o.id, &notify_ids, 0, &nargs, Type::Unit, None) {
            Ok(_) => Ok(()),
            Err(e) => Err(e),
        }
    }
}

/// Blocking a handler, dispatching with it blocked, and unblocking it
/// restores the handler list exactly, so the whole round is one dispatch
/// frame.
proof fn lemma_restore_block(
    pre: Runtime,
    blocked: Runtime,
    written: Runtime,
    post: Runtime,
    tok: SignalHandlerId,
    unb: Result<(), ObjectError>,
)
    requires
        pre.wf(),
        token_live(pre, tok),
        match handler_by_id(pre.instances@[tok.object as int].handlers@, tok.raw) {
            Some(j) => {
                let h = pre.instances@[tok.object as int].handlers@[j];
                &&& h.connected
                &&& h.block_count < u64::MAX
                &&& same_except(pre.instances@, blocked.instances@, tok.object as int)
                &&& blocked.instances@[tok.object as int].handlers@
                    == pre.instances@[tok.object as int].handlers@.update(
                    j,
                    Handler { block_count: (h.block_count + 1) as u64, ..h },
                )
                &&& blocked.instances@[tok.object as int].ty == pre.instances@[tok.object
                    as int].ty
                &&& blocked.instances@[tok.object as int].ref_count == pre.instances@[tok.object
                    as int].ref_count
                &&& blocked.instances@[tok.object as int].alive
                &&& blocked.instances@[tok.object as int].floating == pre.instances@[tok.object
                    as int].floating
                &&& blocked.instances@[tok.object as int].props == pre.instances@[tok.object
                    as int].props
                &&& blocked.instances@[tok.object as int].next_handler_id
                    == pre.instances@[tok.object as int].next_handler_id
            },
            None => false,
        },
        blocked.registry == pre.registry,
        blocked.journal == pre.journal,
        blocked.program_name == pre.program_name,
        dispatch_frame(blocked, written),
        // What unblocking ensures, instantiated at `written` before and
        // `post` after.
        post.registry == written.registry,
        post.journal == written.journal,
        post.program_name == written.program_name,
        token_live(written, tok) ==> match handler_by_id(
            written.instances@[tok.object as int].handlers@,
            tok.raw,
        ) {
            Some(j) => {
                let wpre = written.instances@[tok.object as int];
                if wpre.handlers@[j].connected && wpre.handlers@[j].block_count > 0 {
                    let wpost = post.instances@[tok.object as int];
                    &&& unb is Ok
                    &&& same_except(written.instances@, post.instances@, tok.object as int)
                    &&& wpost.handlers@ == wpre.handlers@.update(
                        j,
                        Handler {
                            block_count: (wpre.handlers@[j].block_count - 1) as u64,
                            ..wpre.handlers@[j]
                        },
                    )
                    &&& wpost.ty == wpre.ty
                    &&& wpost.props == wpre.props
                    &&& wpost.ref_count == wpre.ref_count
                    &&& wpost.alive == wpre.alive
                    &&& wpost.floating == wpre.floating
                    &&& wpost.next_handler_id == wpre.next_handler_id
                } else {
                    crate::error::is_operation_failed(unb) && post.instances@
                        == written.instances@
                }
            },
            None => crate::error::is_operation_failed(unb) && post.instances@
                == written.instances@,
        },
        !token_live(written, tok) ==> crate::error::is_operation_failed(unb) && post.instances@
            == written.instances@,
    ensures
        dispatch_frame(pre, post),
{
    let i = tok.object as int;
    let hs0 = pre.instances@[i].handlers@;
    lemma_handler_by_id(hs0, tok.raw);
    let j = handler_by_id(hs0, tok.raw).unwrap();
    let hs1 = blocked.instances@[i].handlers@;
    let hs2 = written.instances@[i].handlers@;
    assert(hs2 == hs1);
    assert(token_live(written, tok));
    // The handler keeps its position: only its block count changed.
    lemma_handler_by_id(hs2, tok.raw);
    assert forall|m: int| 0 <= m < hs0.len() implies hs2[m].id == hs0[m].id by {}
    assert(handler_by_id(hs2, tok.raw) is Some);
    let jw = handler_by_id(hs2, tok.raw).unwrap();
    assert(jw == j);
    assert(hs2[j].connected && hs2[j].block_count > 0);
    let hs3 = post.instances@[i].handlers@;
    assert(hs3 =~~= hs0) by {
        assert forall|m: int| 0 <= m < hs0.len() implies hs3[m] =~= hs0[m] by {}
    }
    assert(dispatch_frame(pre, post)) by {
        assert(post.journal@.subrange(0, pre.journal@.len() as int) =~= written.journal@.subrange(
            0,
            blocked.journal@.len() as int,
        ));
        assert forall|m: int| 0 <= m < pre.instances@.len() implies {
            let a = pre.instances@[m];
            let b = #[trigger] post.instances@[m];
            &&& b.ty == a.ty
            &&& b.ref_count == a.ref_count
            &&& b.alive == a.alive
            &&& b.floating == a.floating
            &&& b.handlers@ == a.handlers@
            &&& b.next_handler_id == a.next_handler_id
            &&& b.props@.len() == a.props@.len()
        } by {
            if m != i {
                assert(post.instances@[m] == written.instances@[m]);
                assert(blocked.instances@[m] == pre.instances@[m]);
            }
        }
    }
}

/// A write followed by a read: after a successful property write whose
/// setter stores the value, reading the same property yields exactly the
/// just-written (validated) value — for any readable, writable property of
/// any type, string, boolean, object-typed or numeric alike.
pub proof fn lemma_set_then_get(pre: Runtime, post: Runtime, obj: usize, name: Seq<char>, v: Value)
    requires
        pre.wf(),
        obj < pre.instances@.len(),
        post.registry == pre.registry,
        post.instances@.len() == pre.instances@.len(),
        post.instances@[obj as int].ty == pre.instances@[obj as int].ty,
        post.instances@[obj as int].props@.len() == pre.instances@[obj as int].props@.len(),
        ({
            let ty = pre.instances@[obj as int].ty;
            let table = pre.registry.all_props(ty);
            match find_prop_in(table, name) {
                Some(k) => table[k].spec.flags.readable && post.instances@[obj as int].props@
                    == pre.instances@[obj as int].props@.update(k, v),
                None => false,
            }
        }),
    ensures
        ({
            let table = pre.registry.all_props(pre.instances@[obj as int].ty);
            match find_prop_in(table, name) {
                Some(k) => post.read_prop(obj as int, name) == Some(
                    crate::value::tag_at(v, table[k].spec.value_type),
                ),
                None => false,
            }
        }),
{
    let ty = pre.instances@[obj as int].ty;
    let table = pre.registry.all_props(ty);
    lemma_find_prop_in(table, name);
    assert(pre.wf_instance(obj as int));
}

/// Which handlers an emission invokes: among handlers with pairwise
/// distinct tokens, the snapshot of one emission stage lists a handler's
/// token exactly when that handler is connected, unblocked and connected to
/// the signal at that stage — and it lists every token at most once, so a
/// handler fires at most once per stage.
pub proof fn lemma_matching_ids_exact(hs: Seq<Handler>, sig: Seq<char>, after: bool)
    requires
        forall|k1: int, k2: int|
            0 <= k1 < k2 < hs.len() ==> (#[trigger] hs[k1]).id != (#[trigger] hs[k2]).id,
    ensures
        forall|j: int|
            0 <= j < hs.len() ==> (matching_signal_ids(hs, sig, after).contains(
                (#[trigger] hs[j]).id,
            ) <==> handler_matches_signal(hs[j], sig, after)),
        forall|m1: int, m2: int|
            0 <= m1 < m2 < matching_signal_ids(hs, sig, after).len()
                ==> (#[trigger] matching_signal_ids(hs, sig, after)[m1]) != (
            #[trigger] matching_signal_ids(hs, sig, after)[m2]),
    decreases hs.len(),
{
    if hs.len() != 0 {
        let rest = hs.drop_first();
        assert forall|k1: int, k2: int|
            0 <= k1 < k2 < rest.len() implies (#[trigger] rest[k1]).id != (
        #[trigger] rest[k2]).id by {
            assert(rest[k1] == hs[k1 + 1]);
            assert(rest[k2] == hs[k2 + 1]);
        }
        lemma_matching_ids_exact(rest, sig, after);
        let ids = matching_signal_ids(hs, sig, after);
        let ids_rest = matching_signal_ids(rest, sig, after);
        lemma_matching_ids_member(rest, sig, after);
        assert forall|j: int|
            0 <= j < hs.len() implies (ids.contains((#[trigger] hs[j]).id)
            <==> handler_matches_signal(hs[j], sig, after)) by {
            if j == 0 {
                if handler_matches_signal(hs[0], sig, after) {
                    assert(ids[0] == hs[0].id);
                } else {
                    if ids.contains(hs[0].id) {
                        let m = choose|m: int| 0 <= m < ids.len() && ids[m] == hs[0].id;
                        assert(ids_rest.contains(hs[0].id));
                        let mr = choose|mr: int|
                            0 <= mr < ids_rest.len() && ids_rest[mr] == hs[0].id;
                        assert(token_from_matching(rest, sig, after, mr));
                        let jr = choose|jr: int|
                            0 <= jr < rest.len() && matching_signal_ids(rest, sig, after)[mr] == (
                            #[trigger] rest[jr]).id && handler_matches_signal(rest[jr], sig, after);
                        assert(rest[jr] == hs[jr + 1]);
                        assert(hs[jr + 1].id != hs[0].id);
                        assert(false);
                    }
                }
            } else {
                assert(rest[j - 1] == hs[j]);
                if handler_matches_signal(hs[j], sig, after) {
                    assert(ids_rest.contains(hs[j].id));
                    let m = choose|m: int| 0 <= m < ids_rest.len() && ids_rest[m] == hs[j].id;
                    if handler_matches_signal(hs[0], sig, after) {
                        assert(ids[m + 1] == ids_rest[m]);
                    } else {
                        assert(ids =~= ids_rest);
                    }
                    assert(ids.contains(hs[j].id));
                } else {
                    if ids.contains(hs[j].id) {
                        let m = choose|m: int| 0 <= m < ids.len() && ids[m] == hs[j].id;
                        if handler_matches_signal(hs[0], sig, after) && m == 0 {
                            assert(hs[0].id != hs[j].id);
                            assert(false);
                        } else {
                            assert(ids_rest.contains(hs[j].id));
                            let mr = choose|mr: int|
                                0 <= mr < ids_rest.len() && ids_rest[mr] == hs[j].id;
                            assert(token_from_matching(rest, sig, after, mr));
                            let jr = choose|jr: int|
                                0 <= jr < rest.len() && matching_signal_ids(rest, sig, after)[mr]
                                    == (#[trigger] rest[jr]).id && handler_matches_signal(
                                    rest[jr],
                                    sig,
                                    after,
                                );
                            assert(rest[jr] == hs[jr + 1]);
                            if jr + 1 != j {
                                assert(hs[jr + 1].id != hs[j].id || hs[j].id != hs[jr + 1].id);
                                assert(false);
                            } else {
                                assert(handler_matches_signal(hs[j], sig, after));
                                assert(false);
                            }
                        }
                    }
                }
            }
        }
        assert forall|m1: int, m2: int|
            0 <= m1 < m2 < ids.len() implies (#[trigger] ids[m1]) != (#[trigger] ids[m2]) by {
            lemma_matching_ids_member(rest, sig, after);
            if handler_matches_signal(hs[0], sig, after) {
                assert(ids[0] == hs[0].id);
                if m1 == 0 {
                    assert(ids[m2] == ids_rest[m2 - 1]);
                    assert(token_from_matching(rest, sig, after, m2 - 1));
                    let jr = choose|jr: int|
                        0 <= jr < rest.len() && matching_signal_ids(rest, sig, after)[m2 - 1] == (
                        #[trigger] rest[jr]).id && handler_matches_signal(rest[jr], sig, after);
                    assert(rest[jr] == hs[jr + 1]);
                    assert(hs[0].id != hs[jr + 1].id);
                } else {
                    assert(ids[m1] == ids_rest[m1 - 1]);
                    assert(ids[m2] == ids_rest[m2 - 1]);
                }
            } else {
                assert(ids =~= ids_rest);
            }
        }
    }
}

/// The token at one position of a matching snapshot belongs to some
/// matching handler.
pub open spec fn token_from_matching(hs: Seq<Handler>, sig: Seq<char>, after: bool, m: int) -> bool {
    exists|j: int|
        0 <= j < hs.len() && matching_signal_ids(hs, sig, after)[m] == (#[trigger] hs[j]).id
            && handler_matches_signal(hs[j], sig, after)
}

/// The notification analogue: among handlers with pairwise distinct
/// tokens, the snapshot of a change notification lists a handler's token
/// exactly when that handler is connected, unblocked and subscribed to the
/// property (or to all properties) — each token at most once, so a
/// notification handler fires exactly once per accepted write.
pub proof fn lemma_matching_notify_exact(hs: Seq<Handler>, prop: Seq<char>)
    requires
        forall|k1: int, k2: int|
            0 <= k1 < k2 < hs.len() ==> (#[trigger] hs[k1]).id != (#[trigger] hs[k2]).id,
    ensures
        forall|j: int|
            0 <= j < hs.len() ==> (matching_notify_ids(hs, prop).contains((#[trigger] hs[j]).id)
                <==> handler_matches_notify(hs[j], prop)),
        forall|m1: int, m2: int|
            0 <= m1 < m2 < matching_notify_ids(hs, prop).len() ==> (
            #[trigger] matching_notify_ids(hs, prop)[m1]) != (#[trigger] matching_notify_ids(
                hs,
                prop,
            )[m2]),
    decreases hs.len(),
{
    if hs.len() != 0 {
        let rest = hs.drop_first();
        assert forall|k1: int, k2: int|
            0 <= k1 < k2 < rest.len() implies (#[trigger] rest[k1]).id != (
        #[trigger] rest[k2]).id by {
            assert(rest[k1] == hs[k1 + 1]);
            assert(rest[k2] == hs[k2 + 1]);
        }
        lemma_matching_notify_exact(rest, prop);
        let ids = matching_notify_ids(hs, prop);
        let ids_rest = matching_notify_ids(rest, prop);
        lemma_matching_notify_member(rest, prop);
        assert forall|j: int|
            0 <= j < hs.len() implies (ids.contains((#[trigger] hs[j]).id)
            <==> handler_matches_notify(hs[j], prop)) by {
            if j == 0 {
                if handler_matches_notify(hs[0], prop) {
                    assert(ids[0] == hs[0].id);
                } else {
                    if ids.contains(hs[0].id) {
                        let m = choose|m: int| 0 <= m < ids.len() && ids[m] == hs[0].id;
                        assert(ids_rest.contains(hs[0].id));
                        let mr = choose|mr: int|
                            0 <= mr < ids_rest.len() && ids_rest[mr] == hs[0].id;
                        assert(notify_token_from_matching(rest, prop, mr));
                        let jr = choose|jr: int|
                            0 <= jr < rest.len() && matching_notify_ids(rest, prop)[mr] == (
                            #[trigger] rest[jr]).id && handler_matches_notify(rest[jr], prop);
                        assert(rest[jr] == hs[jr + 1]);
                        assert(hs[jr + 1].id != hs[0].id);
                        assert(false);
                    }
                }
            } else {
                assert(rest[j - 1] == hs[j]);
                if handler_matches_notify(hs[j], prop) {
                    assert(ids_rest.contains(hs[j].id));
                    let m = choose|m: int| 0 <= m < ids_rest.len() && ids_rest[m] == hs[j].id;
                    if handler_matches_notify(hs[0], prop) {
                        assert(ids[m + 1] == ids_rest[m]);
                    } else {
                        assert(ids =~= ids_rest);
                    }
                    assert(ids.contains(hs[j].id));
                } else {
                    if ids.contains(hs[j].id) {
                        let m = choose|m: int| 0 <= m < ids.len() && ids[m] == hs[j].id;
                        if handler_matches_notify(hs[0], prop) && m == 0 {
                            assert(hs[0].id != hs[j].id);
                            assert(false);
                        } else {
                            assert(ids_rest.contains(hs[j].id));
                            let mr = choose|mr: int|
                                0 <= mr < ids_rest.len() && ids_rest[mr] == hs[j].id;
                            assert(notify_token_from_matching(rest, prop, mr));
                            let jr = choose|jr: int|
                                0 <= jr < rest.len() && matching_notify_ids(rest, prop)[mr] == (
                                #[trigger] rest[jr]).id && handler_matches_notify(rest[jr], prop);
                            assert(rest[jr] == hs[jr + 1]);
                            if jr + 1 != j {
                                assert(hs[jr + 1].id != hs[j].id || hs[j].id != hs[jr + 1].id);
                                assert(false);
                            } else {
                                assert(handler_matches_notify(hs[j], prop));
                                assert(false);
                            }
                        }
                    }
                }
            }
        }
        assert forall|m1: int, m2: int|
            0 <= m1 < m2 < ids.len() implies (#[trigger] ids[m1]) != (#[trigger] ids[m2]) by {
            lemma_matching_notify_member(rest, prop);
            if handler_matches_notify(hs[0], prop) {
                assert(ids[0] == hs[0].id);
                if m1 == 0 {
                    assert(ids[m2] == ids_rest[m2 - 1]);
                    assert(notify_token_from_matching(rest, prop, m2 - 1));
                    let jr = choose|jr: int|
                        0 <= jr < rest.len() && matching_notify_ids(rest, prop)[m2 - 1] == (
                        #[trigger] rest[jr]).id && handler_matches_notify(rest[jr], prop);
                    assert(rest[jr] == hs[jr + 1]);
                    assert(hs[0].id != hs[jr + 1].id);
                } else {
                    assert(ids[m1] == ids_rest[m1 - 1]);
                    assert(ids[m2] == ids_rest[m2 - 1]);
                }
            } else {
                assert(ids =~= ids_rest);
            }
        }
    }
}

/// The token at one position of a notification snapshot belongs to some
/// matching handler.
pub open spec fn notify_token_from_matching(hs: Seq<Handler>, prop: Seq<char>, m: int) -> bool {
    exists|j: int|
        0 <= j < hs.len() && matching_notify_ids(hs, prop)[m] == (#[trigger] hs[j]).id
            && handler_matches_notify(hs[j], prop)
}

/// Every token in a notification snapshot belongs to some matching handler.
pub proof fn lemma_matching_notify_member(hs: Seq<Handler>, prop: Seq<char>)
    ensures
        forall|m: int|
            0 <= m < matching_notify_ids(hs, prop).len() ==> #[trigger] notify_token_from_matching(
                hs,
                prop,
                m,
            ),
    decreases hs.len(),
{
    if hs.len() != 0 {
        lemma_matching_notify_member(hs.drop_first(), prop);
        let ids = matching_notify_ids(hs, prop);
        let ids_rest = matching_notify_ids(hs.drop_first(), prop);
        assert forall|m: int|
            0 <= m < ids.len() implies #[trigger] notify_token_from_matching(hs, prop, m) by {
            let rest2 = hs.drop_first();
            if handler_matches_notify(hs[0], prop) {
                if m == 0 {
                    assert(ids[0] == hs[0].id);
                    assert(0 <= 0 < hs.len() && ids[m] == hs[0].id && handler_matches_notify(
                        hs[0],
                        prop,
                    ));
                } else {
                    assert(ids[m] == ids_rest[m - 1]);
                    assert(notify_token_from_matching(rest2, prop, m - 1));
                    let j = choose|j: int|
                        0 <= j < rest2.len() && matching_notify_ids(rest2, prop)[m - 1] == (
                        #[trigger] rest2[j]).id && handler_matches_notify(rest2[j], prop);
                    assert(rest2[j] == hs[j + 1]);
                    assert(0 <= j + 1 < hs.len() && ids[m] == hs[j + 1].id
                        && handler_matches_notify(hs[j + 1], prop));
                }
            } else {
                assert(ids =~= ids_rest);
                assert(notify_token_from_matching(rest2, prop, m));
                let j = choose|j: int|
                    0 <= j < rest2.len() && matching_notify_ids(rest2, prop)[m] == (
                    #[trigger] rest2[j]).id && handler_matches_notify(rest2[j], prop);
                assert(rest2[j] == hs[j + 1]);
                assert(0 <= j + 1 < hs.len() && ids[m] == hs[j + 1].id && handler_matches_notify(
                    hs[j + 1],
                    prop,
                ));
            }
        }
    }
}

/// Every token in a matching snapshot belongs to some matching handler.
pub proof fn lemma_matching_ids_member(hs: Seq<Handler>, sig: Seq<char>, after: bool)
    ensures
        forall|m: int|
            0 <= m < matching_signal_ids(hs, sig, after).len() ==> #[trigger] token_from_matching(
                hs,
                sig,
                after,
                m,
            ),
    decreases hs.len(),
{
    if hs.len() != 0 {
        lemma_matching_ids_member(hs.drop_first(), sig, after);
        let ids = matching_signal_ids(hs, sig, after);
        let ids_rest = matching_signal_ids(hs.drop_first(), sig, after);
        assert forall|m: int|
            0 <= m < ids.len() implies #[trigger] token_from_matching(hs, sig, after, m) by {
            let rest2 = hs.drop_first();
            if handler_matches_signal(hs[0], sig, after) {
                if m == 0 {
                    assert(ids[0] == hs[0].id);
                    assert(0 <= 0 < hs.len() && ids[m] == hs[0].id && handler_matches_signal(
                        hs[0],
                        sig,
                        after,
                    ));
                } else {
                    assert(ids[m] == ids_rest[m - 1]);
                    assert(token_from_matching(rest2, sig, after, m - 1));
                    let j = choose|j: int|
                        0 <= j < rest2.len() && matching_signal_ids(rest2, sig, after)[m - 1] == (
                        #[trigger] rest2[j]).id && handler_matches_signal(rest2[j], sig, after);
                    assert(rest2[j] == hs[j + 1]);
                    assert(0 <= j + 1 < hs.len() && ids[m] == hs[j + 1].id
                        && handler_matches_signal(hs[j + 1], sig, after));
                }
            } else {
                assert(ids =~= ids_rest);
                assert(token_from_matching(rest2, sig, after, m));
                let j = choose|j: int|
                    0 <= j < rest2.len() && matching_signal_ids(rest2, sig, after)[m] == (
                    #[trigger] rest2[j]).id && handler_matches_signal(rest2[j], sig, after);
                assert(rest2[j] == hs[j + 1]);
                assert(0 <= j + 1 < hs.len() && ids[m] == hs[j + 1].id && handler_matches_signal(
                    hs[j + 1],
                    sig,
                    after,
                ));
            }
        }
    }
}

/// Upcast followed by downcast is the identity: a valid handle viewed up
/// the lineage at `target` still satisfies the downcast check back to its
/// original view type, so narrowing again must succeed and yields a handle
/// equal to the original by identity.  A downcast toward a type the
/// instance is not returns the handle unchanged — that is the `ensures` of
/// [`Runtime::downcast`] itself.
pub proof fn lemma_cast_round_trip(rt: Runtime, o: Object, target: Type)
    requires
        rt.wf(),
        rt.valid_obj(o),
        rt.registry.is_a_spec(o.ty, target),
    ensures
        // The upcast handle is valid at the wider view type.
        rt.valid_obj(Object { id: o.id, ty: target }),
        // The downcast check back to the original view type holds, so
        // `downcast` returns `Ok(Object { id: o.id, ty: o.ty })` — equal to
        // `o`, since handles compare by instance identity.
        rt.registry.is_a_spec(rt.instances@[o.id as int].ty, o.ty),
        vstd::std_specs::cmp::PartialEqSpec::eq_spec(&(Object { id: o.id, ty: o.ty }), &o),
{
    rt.registry.lemma_is_a_transitive(rt.instances@[o.id as int].ty, o.ty, target);
}

/// Cloning a fresh handle `n` times and dropping `n + 1` times destroys
/// the instance exactly once: it is alive, with the right count, after
/// every intermediate step, and destroyed by the last drop alone.
pub open spec fn iterate_clones(insts: Seq<InstanceStruct>, i: int, n: nat) -> Seq<InstanceStruct>
    decreases n,
{
    if n == 0 {
        insts
    } else {
        clone_step(iterate_clones(insts, i, (n - 1) as nat), i)
    }
}

/// `k` drops applied to instance `i`.
pub open spec fn iterate_drops(insts: Seq<InstanceStruct>, i: int, k: nat) -> Seq<InstanceStruct>
    decreases k,
{
    if k == 0 {
        insts
    } else {
        drop_step(iterate_drops(insts, i, (k - 1) as nat), i)
    }
}

/// After `n` clones of a handle on a live instance with one reference, the
/// count is `n + 1` and the instance is alive; nothing else changed.
pub proof fn lemma_clones_count(insts: Seq<InstanceStruct>, i: int, n: nat)
    requires
        0 <= i < insts.len(),
        insts[i].alive,
        insts[i].ref_count + n <= u64::MAX,
    ensures
        iterate_clones(insts, i, n).len() == insts.len(),
        iterate_clones(insts, i, n)[i].ref_count == insts[i].ref_count + n,
        iterate_clones(insts, i, n)[i].alive,
        iterate_clones(insts, i, n)[i].ty == insts[i].ty,
        same_except(insts, iterate_clones(insts, i, n), i),
    decreases n,
{
    if n > 0 {
        lemma_clones_count(insts, i, (n - 1) as nat);
    }
}

/// Dropping while more than `k` references remain keeps the instance
/// alive; each drop takes exactly one reference.
pub proof fn lemma_drops_keep_alive(insts: Seq<InstanceStruct>, i: int, k: nat)
    requires
        0 <= i < insts.len(),
        insts[i].alive,
        k < insts[i].ref_count,
    ensures
        iterate_drops(insts, i, k).len() == insts.len(),
        iterate_drops(insts, i, k)[i].ref_count == insts[i].ref_count - k,
        iterate_drops(insts, i, k)[i].alive,
        same_except(insts, iterate_drops(insts, i, k), i),
    decreases k,
{
    if k > 0 {
        lemma_drops_keep_alive(insts, i, (k - 1) as nat);
    }
}

/// The law of balanced reference counting: a handle on a fresh instance
/// (one reference), cloned `n` times and then dropped `n + 1` times, keeps
/// the instance alive through the first `n` drops and destroys it exactly
/// at the last one — never before, and a destroyed instance stays
/// destroyed.
pub proof fn lemma_clone_drop_balance(insts: Seq<InstanceStruct>, i: int, n: nat)
    requires
        0 <= i < insts.len(),
        insts[i].alive,
        insts[i].ref_count == 1,
        n + 1 <= u64::MAX,
    ensures
        forall|k: nat|
            k <= n ==> #[trigger] iterate_drops(iterate_clones(insts, i, n), i, k)[i].alive
                && iterate_drops(iterate_clones(insts, i, n), i, k)[i].ref_count == n + 1 - k,
        !iterate_drops(iterate_clones(insts, i, n), i, (n + 1) as nat)[i].alive,
        iterate_drops(iterate_clones(insts, i, n), i, (n + 1) as nat)[i].ref_count == 0,
{
    lemma_clones_count(insts, i, n);
    let cloned = iterate_clones(insts, i, n);
    assert forall|k: nat| k <= n implies #[trigger] iterate_drops(cloned, i, k)[i].alive
        && iterate_drops(cloned, i, k)[i].ref_count == n + 1 - k by {
        if k > 0 {
            lemma_drops_keep_alive(cloned, i, k);
        }
    }
    lemma_drops_keep_alive(cloned, i, n);
}

} // verus!
