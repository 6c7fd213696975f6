//! The dynamically typed value container.
//!
//! A [`Value`] carries exactly one value of a runtime-known type.  Once
//! created, its type never changes.  String- and object-typed values support
//! an empty (`None`) payload; the numeric and boolean kinds always hold a
//! payload.

use vstd::prelude::*;
use crate::types::Type;

verus! {

/// A generic value capable of carrying various types.
///
/// An object-typed value records the type the instance is viewed at — the
/// handle's view type when the value is boxed, the property's declared type
/// when a read boxes it afresh — together with the instance's identifier.
#[derive(Clone, Debug)]
pub enum Value {
    /// A boolean.
    Bool(bool),
    /// A signed 8-bit integer.
    I8(i8),
    /// An unsigned 8-bit integer.
    U8(u8),
    /// A signed 32-bit integer.
    I32(i32),
    /// An unsigned 32-bit integer.
    U32(u32),
    /// A signed 64-bit integer.
    I64(i64),
    /// An unsigned 64-bit integer.
    U64(u64),
    /// A string, possibly empty.
    Str(Option<String>),
    /// A reference to an object instance of the recorded runtime type,
    /// possibly empty.
    Object(Type, Option<usize>),
}

impl Value {
    /// The runtime type a value carries.
    pub open spec fn value_type(self) -> Type {
        match self {
            Value::Bool(_) => Type::Bool,
            Value::I8(_) => Type::I8,
            Value::U8(_) => Type::U8,
            Value::I32(_) => Type::I32,
            Value::U32(_) => Type::U32,
            Value::I64(_) => Type::I64,
            Value::U64(_) => Type::U64,
            Value::Str(_) => Type::String,
            Value::Object(t, _) => t,
        }
    }

    /// Returns the type of the value.
    pub fn type_(&self) -> (t: Type)
        ensures
            t == self.value_type(),
    {
        match self {
            Value::Bool(_) => Type::Bool,
            Value::I8(_) => Type::I8,
            Value::U8(_) => Type::U8,
            Value::I32(_) => Type::I32,
            Value::U32(_) => Type::U32,
            Value::I64(_) => Type::I64,
            Value::U64(_) => Type::U64,
            Value::Str(_) => Type::String,
            Value::Object(t, _) => *t,
        }
    }

    /// Tries to get a boolean; `None` if the value is of another type.
    pub fn get_bool(&self) -> (r: Option<bool>)
        ensures
            r == (if self is Bool { Some(self->Bool_0) } else { Option::<bool>::None }),
    {
        match self {
            Value::Bool(b) => Some(*b),
            _ => None,
        }
    }

    /// Tries to get a string; `None` if the value is of another type or
    /// holds no string.
    pub fn get_str(&self) -> (r: Option<String>)
        ensures
            r == (if self is Str { self->Str_0 } else { Option::<String>::None }),
    {
        match self {
            Value::Str(Some(s)) => Some(s.clone()),
            _ => None,
        }
    }

    /// Tries to get a signed 32-bit integer.
    pub fn get_i32(&self) -> (r: Option<i32>)
        ensures
            r == (if self is I32 { Some(self->I32_0) } else { Option::<i32>::None }),
    {
        match self {
            Value::I32(n) => Some(*n),
            _ => None,
        }
    }

    /// Tries to get a signed 64-bit integer.
    pub fn get_i64(&self) -> (r: Option<i64>)
        ensures
            r == (if self is I64 { Some(self->I64_0) } else { Option::<i64>::None }),
    {
        match self {
            Value::I64(n) => Some(*n),
            _ => None,
        }
    }

    /// Tries to get an unsigned 64-bit integer.
    pub fn get_u64(&self) -> (r: Option<u64>)
        ensures
            r == (if self is U64 { Some(self->U64_0) } else { Option::<u64>::None }),
    {
        match self {
            Value::U64(n) => Some(*n),
            _ => None,
        }
    }

    /// Tries to get the identifier of the referenced object instance;
    /// `None` if the value is of another type or holds no instance.
    pub fn get_object(&self) -> (r: Option<usize>)
        ensures
            r == (if self is Object { self->Object_1 } else { Option::<usize>::None }),
    {
        match self {
            Value::Object(_, id) => *id,
            _ => None,
        }
    }
}

/// An exact copy of a value.  (The derived `Clone` carries no specification,
/// so verified code copies values through this function.)
pub fn value_clone(v: &Value) -> (r: Value)
    ensures
        r == *v,
{
    match v {
        Value::Bool(b) => Value::Bool(*b),
        Value::I8(n) => Value::I8(*n),
        Value::U8(n) => Value::U8(*n),
        Value::I32(n) => Value::I32(*n),
        Value::U32(n) => Value::U32(*n),
        Value::I64(n) => Value::I64(*n),
        Value::U64(n) => Value::U64(*n),
        Value::Str(None) => Value::Str(None),
        Value::Str(Some(s)) => Value::Str(Some(s.clone())),
        Value::Object(t, id) => Value::Object(*t, *id),
    }
}

/// An exact copy of a list of values.
pub fn values_clone(v: &Vec<Value>) -> (r: Vec<Value>)
    ensures
        r@ == v@,
{
    let mut r: Vec<Value> = Vec::new();
    let mut i: usize = 0;
    while i < v.len()
        invariant
            i <= v@.len(),
            r@ == v@.subrange(0, i as int),
        decreases v@.len() - i,
    {
        r.push(value_clone(&v[i]));
        proof {
            assert(r@ =~= v@.subrange(0, i + 1 as int));
        }
        i = i + 1;
    }
    proof {
        assert(r@ =~= v@);
    }
    r
}

/// Computes the integer payload of a value, if it has one.
pub fn int_payload_of(v: &Value) -> (r: Option<i128>)
    ensures
        r is Some <==> int_payload(*v) is Some,
        r is Some ==> r->0 as int == int_payload(*v)->0,
{
    match v {
        Value::I8(n) => Some(*n as i128),
        Value::U8(n) => Some(*n as i128),
        Value::I32(n) => Some(*n as i128),
        Value::U32(n) => Some(*n as i128),
        Value::I64(n) => Some(*n as i128),
        Value::U64(n) => Some(*n as i128),
        _ => None,
    }
}

/// The same value retagged at the given type: an object reference keeps its
/// instance but is viewed at `t`; every other value is unchanged.  Reading
/// a property yields the stored value tagged at the property's declared
/// type, the way a freshly typed container would carry it.
pub open spec fn tag_at(v: Value, t: Type) -> Value {
    match v {
        Value::Object(_, id) => Value::Object(t, id),
        _ => v,
    }
}

/// Retags a value at the given type.
pub fn tag_value_at(v: &Value, t: Type) -> (r: Value)
    ensures
        r == tag_at(*v, t),
{
    match v {
        Value::Object(_, id) => Value::Object(t, *id),
        _ => value_clone(v),
    }
}

/// The mathematical payload of an integer-kinded value, used by range
/// validation.  `None` for non-integer values.
pub open spec fn int_payload(v: Value) -> Option<int> {
    match v {
        Value::I8(n) => Some(n as int),
        Value::U8(n) => Some(n as int),
        Value::I32(n) => Some(n as int),
        Value::U32(n) => Some(n as int),
        Value::I64(n) => Some(n as int),
        Value::U64(n) => Some(n as int),
        _ => None,
    }
}

} // verus!
