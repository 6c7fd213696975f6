//! Property descriptors.
//!
//! A [`ParamSpec`] describes one property of a type: its name, declared value
//! type, access flags, default value, and — for integer-kinded properties —
//! the permitted range.  Range validation either rejects or clamps an
//! out-of-range value, depending on the descriptor's lax-validation flag.

use vstd::prelude::*;
use crate::types::Type;
use crate::value::{int_payload, value_clone, Value};

verus! {

/// Access flags of a property.
#[derive(Clone, Copy, PartialEq, Eq, Structural, Debug)]
pub struct ParamFlags {
    /// The property can be read.
    pub readable: bool,
    /// The property can be written.
    pub writable: bool,
    /// The property is meant to be set at construction time.
    pub construct: bool,
    /// The property can only be set at construction time.
    pub construct_only: bool,
    /// Out-of-range values are clamped instead of rejected.
    pub lax_validation: bool,
}

impl ParamFlags {
    /// Readable and writable, nothing more.
    pub fn readwrite() -> (r: ParamFlags)
        ensures
            r == (ParamFlags {
                readable: true,
                writable: true,
                construct: false,
                construct_only: false,
                lax_validation: false,
            }),
    {
        ParamFlags {
            readable: true,
            writable: true,
            construct: false,
            construct_only: false,
            lax_validation: false,
        }
    }

    /// Readable only.
    pub fn readonly() -> (r: ParamFlags)
        ensures
            r == (ParamFlags {
                readable: true,
                writable: false,
                construct: false,
                construct_only: false,
                lax_validation: false,
            }),
    {
        ParamFlags {
            readable: true,
            writable: false,
            construct: false,
            construct_only: false,
            lax_validation: false,
        }
    }

    /// The same flags with construct-only set.
    pub fn with_construct_only(self) -> (r: ParamFlags)
        ensures
            r == (ParamFlags { construct_only: true, ..self }),
    {
        ParamFlags { construct_only: true, ..self }
    }

    /// The same flags with lax validation set.
    pub fn with_lax_validation(self) -> (r: ParamFlags)
        ensures
            r == (ParamFlags { lax_validation: true, ..self }),
    {
        ParamFlags { lax_validation: true, ..self }
    }
}

/// The description of one property.
#[derive(Clone, Debug)]
pub struct ParamSpec {
    /// The property's name, unique within its type's lineage.
    pub name: String,
    /// The declared type of the property's values.
    pub value_type: Type,
    /// Access flags.
    pub flags: ParamFlags,
    /// The value a fresh instance starts with.
    pub default: Value,
    /// Smallest admissible payload of an integer-kinded property.
    pub minimum: i128,
    /// Largest admissible payload of an integer-kinded property.
    pub maximum: i128,
}

/// An exact copy of a descriptor.  (The derived `Clone` carries no
/// specification.)
pub fn param_spec_clone(p: &ParamSpec) -> (r: ParamSpec)
    ensures
        r == *p,
{
    ParamSpec {
        name: p.name.clone(),
        value_type: p.value_type,
        flags: p.flags,
        default: value_clone(&p.default),
        minimum: p.minimum,
        maximum: p.maximum,
    }
}

/// The natural range of an integer-kinded type; full range for the rest.
pub open spec fn type_range(t: Type) -> (int, int) {
    match t {
        Type::I8 => (i8::MIN as int, i8::MAX as int),
        Type::U8 => (0int, u8::MAX as int),
        Type::I32 => (i32::MIN as int, i32::MAX as int),
        Type::U32 => (0int, u32::MAX as int),
        Type::I64 => (i64::MIN as int, i64::MAX as int),
        Type::U64 => (0int, u64::MAX as int),
        _ => (i128::MIN as int, i128::MAX as int),
    }
}

/// Computes the natural range of a type.
pub fn type_range_of(t: Type) -> (r: (i128, i128))
    ensures
        r.0 as int == type_range(t).0,
        r.1 as int == type_range(t).1,
{
    match t {
        Type::I8 => (i8::MIN as i128, i8::MAX as i128),
        Type::U8 => (0, u8::MAX as i128),
        Type::I32 => (i32::MIN as i128, i32::MAX as i128),
        Type::U32 => (0, u32::MAX as i128),
        Type::I64 => (i64::MIN as i128, i64::MAX as i128),
        Type::U64 => (0, u64::MAX as i128),
        _ => (i128::MIN, i128::MAX),
    }
}

impl ParamSpec {
    /// A value's payload lies within the descriptor's range.  Values without
    /// an integer payload are always in range.
    pub open spec fn in_range(self, v: Value) -> bool {
        match int_payload(v) {
            Some(n) => self.minimum <= n <= self.maximum,
            None => true,
        }
    }

    /// Internal consistency of a descriptor: the range is non-empty and lies
    /// within the declared type's natural range, and the default is a value
    /// of the declared type within that range.  For object-typed properties
    /// the default holds no instance.
    pub open spec fn wf(self) -> bool {
        &&& self.name@.len() > 0
        &&& self.minimum <= self.maximum
        &&& type_range(self.value_type).0 <= self.minimum
        &&& self.maximum <= type_range(self.value_type).1
        &&& self.default.value_type() == self.value_type
        &&& self.in_range(self.default)
        &&& (self.default is Object ==> self.default->Object_1 is None)
    }

    /// Checks whether a value lies within the descriptor's range.
    pub fn in_range_check(&self, v: &Value) -> (r: bool)
        ensures
            r == self.in_range(*v),
    {
        match crate::value::int_payload_of(v) {
            Some(n) => self.minimum <= n && n <= self.maximum,
            None => true,
        }
    }

    /// Checks the internal consistency of a descriptor.
    pub fn wf_check(&self) -> (r: bool)
        ensures
            r == self.wf(),
    {
        if self.name.as_str().unicode_len() == 0 {
            return false;
        }
        if !(self.minimum <= self.maximum) {
            return false;
        }
        let range = type_range_of(self.value_type);
        if !(range.0 <= self.minimum && self.maximum <= range.1) {
            return false;
        }
        if self.default.type_() != self.value_type {
            return false;
        }
        match crate::value::int_payload_of(&self.default) {
            Some(n) => {
                if !(self.minimum <= n && n <= self.maximum) {
                    return false;
                }
            },
            None => {},
        }
        match &self.default {
            Value::Object(_, Some(_)) => false,
            _ => true,
        }
    }

    /// The result of range validation: the value unchanged if in range, else
    /// the value clamped to the nearest bound.
    pub open spec fn clamp_spec(self, v: Value) -> Value {
        match v {
            Value::I8(n) => if n < self.minimum {
                Value::I8(self.minimum as i8)
            } else if n > self.maximum {
                Value::I8(self.maximum as i8)
            } else {
                v
            },
            Value::U8(n) => if n < self.minimum {
                Value::U8(self.minimum as u8)
            } else if n > self.maximum {
                Value::U8(self.maximum as u8)
            } else {
                v
            },
            Value::I32(n) => if n < self.minimum {
                Value::I32(self.minimum as i32)
            } else if n > self.maximum {
                Value::I32(self.maximum as i32)
            } else {
                v
            },
            Value::U32(n) => if n < self.minimum {
                Value::U32(self.minimum as u32)
            } else if n > self.maximum {
                Value::U32(self.maximum as u32)
            } else {
                v
            },
            Value::I64(n) => if n < self.minimum {
                Value::I64(self.minimum as i64)
            } else if n > self.maximum {
                Value::I64(self.maximum as i64)
            } else {
                v
            },
            Value::U64(n) => if n < self.minimum {
                Value::U64(self.minimum as u64)
            } else if n > self.maximum {
                Value::U64(self.maximum as u64)
            } else {
                v
            },
            _ => v,
        }
    }

    /// Runs range validation on a value of the declared type.  Returns the
    /// value to store and whether validation had to change it.
    pub fn validate(&self, v: &Value) -> (r: (Value, bool))
        requires
            self.wf(),
            v is Object || v.value_type() == self.value_type,
        ensures
            r.0 == self.clamp_spec(*v),
            r.1 == !self.in_range(*v),
            self.in_range(r.0),
            r.0.value_type() == v.value_type(),
    {
        match v {
            Value::I8(n) => {
                if (*n as i128) < self.minimum {
                    (Value::I8(self.minimum as i8), true)
                } else if (*n as i128) > self.maximum {
                    (Value::I8(self.maximum as i8), true)
                } else {
                    (Value::I8(*n), false)
                }
            },
            Value::U8(n) => {
                if (*n as i128) < self.minimum {
                    (Value::U8(self.minimum as u8), true)
                } else if (*n as i128) > self.maximum {
                    (Value::U8(self.maximum as u8), true)
                } else {
                    (Value::U8(*n), false)
                }
            },
            Value::I32(n) => {
                if (*n as i128) < self.minimum {
                    (Value::I32(self.minimum as i32), true)
                } else if (*n as i128) > self.maximum {
                    (Value::I32(self.maximum as i32), true)
                } else {
                    (Value::I32(*n), false)
                }
            },
            Value::U32(n) => {
                if (*n as i128) < self.minimum {
                    (Value::U32(self.minimum as u32), true)
                } else if (*n as i128) > self.maximum {
                    (Value::U32(self.maximum as u32), true)
                } else {
                    (Value::U32(*n), false)
                }
            },
            Value::I64(n) => {
                if (*n as i128) < self.minimum {
                    (Value::I64(self.minimum as i64), true)
                } else if (*n as i128) > self.maximum {
                    (Value::I64(self.maximum as i64), true)
                } else {
                    (Value::I64(*n), false)
                }
            },
            Value::U64(n) => {
                if (*n as i128) < self.minimum {
                    (Value::U64(self.minimum as u64), true)
                } else if (*n as i128) > self.maximum {
                    (Value::U64(self.maximum as u64), true)
                } else {
                    (Value::U64(*n), false)
                }
            },
            _ => (value_clone(v), false),
        }
    }

    /// A descriptor for a string property, defaulting to the empty payload.
    pub fn string(name: &str, flags: ParamFlags) -> (r: ParamSpec)
        requires
            name@.len() > 0,
        ensures
            r.wf(),
            r.name@ == name@,
            r.value_type == Type::String,
            r.flags == flags,
            r.default == Value::Str(Option::<String>::None),
    {
        ParamSpec {
            name: String::from_str(name),
            value_type: Type::String,
            flags,
            default: Value::Str(None),
            minimum: i128::MIN,
            maximum: i128::MAX,
        }
    }

    /// A descriptor for a boolean property.
    pub fn boolean(name: &str, default: bool, flags: ParamFlags) -> (r: ParamSpec)
        requires
            name@.len() > 0,
        ensures
            r.wf(),
            r.name@ == name@,
            r.value_type == Type::Bool,
            r.flags == flags,
            r.default == Value::Bool(default),
    {
        ParamSpec {
            name: String::from_str(name),
            value_type: Type::Bool,
            flags,
            default: Value::Bool(default),
            minimum: i128::MIN,
            maximum: i128::MAX,
        }
    }

    /// A descriptor for a signed 32-bit integer property with a range.
    pub fn int32(name: &str, minimum: i32, maximum: i32, default: i32, flags: ParamFlags) -> (r:
        ParamSpec)
        requires
            name@.len() > 0,
            minimum <= default <= maximum,
        ensures
            r.wf(),
            r.name@ == name@,
            r.value_type == Type::I32,
            r.flags == flags,
            r.default == Value::I32(default),
            r.minimum == minimum as int,
            r.maximum == maximum as int,
    {
        ParamSpec {
            name: String::from_str(name),
            value_type: Type::I32,
            flags,
            default: Value::I32(default),
            minimum: minimum as i128,
            maximum: maximum as i128,
        }
    }

    /// A descriptor for a signed 64-bit integer property with a range.
    pub fn int64(name: &str, minimum: i64, maximum: i64, default: i64, flags: ParamFlags) -> (r:
        ParamSpec)
        requires
            name@.len() > 0,
            minimum <= default <= maximum,
        ensures
            r.wf(),
            r.name@ == name@,
            r.value_type == Type::I64,
            r.flags == flags,
            r.default == Value::I64(default),
            r.minimum == minimum as int,
            r.maximum == maximum as int,
    {
        ParamSpec {
            name: String::from_str(name),
            value_type: Type::I64,
            flags,
            default: Value::I64(default),
            minimum: minimum as i128,
            maximum: maximum as i128,
        }
    }

    /// A descriptor for an object-typed property of the given type.
    pub fn object(name: &str, value_type: Type, flags: ParamFlags) -> (r: ParamSpec)
        requires
            name@.len() > 0,
            value_type is Other || value_type == Type::BaseObject,
        ensures
            r.wf(),
            r.name@ == name@,
            r.value_type == value_type,
            r.flags == flags,
            r.default == Value::Object(value_type, Option::<usize>::None),
    {
        ParamSpec {
            name: String::from_str(name),
            value_type,
            flags,
            default: Value::Object(value_type, None),
            minimum: i128::MIN,
            maximum: i128::MAX,
        }
    }
}

} // verus!
