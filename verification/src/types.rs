//! Runtime type identifiers.
//!
//! A [`Type`] names one point of the type system: either one of the
//! fundamental kinds (booleans, integer widths, strings, the object and
//! interface roots, ...) or a derived type registered at run time, identified
//! by its index in the registry.

use vstd::prelude::*;

verus! {

/// A runtime type identifier.
///
/// Equality is by raw identity: two `Type` values denote the same type
/// exactly when they are equal.
#[derive(Clone, Copy, PartialEq, Eq, Structural, Debug, Hash, PartialOrd, Ord)]
pub enum Type {
    /// An invalid type, used as an error value in some lookups.
    Invalid,
    /// The fundamental type corresponding to the unit type `()`.
    Unit,
    /// The fundamental type corresponding to `i8`.
    I8,
    /// The fundamental type corresponding to `u8`.
    U8,
    /// The fundamental type corresponding to `bool`.
    Bool,
    /// The fundamental type corresponding to `i32`.
    I32,
    /// The fundamental type corresponding to `u32`.
    U32,
    /// The fundamental type corresponding to `i64`.
    I64,
    /// The fundamental type corresponding to `u64`.
    U64,
    /// The fundamental type of single-precision floating-point values.  The
    /// identifier exists so the partition of fundamental kinds is complete;
    /// the value container carries no payload of this type.
    F32,
    /// The fundamental type of double-precision floating-point values; like
    /// `F32`, an identifier only.
    F64,
    /// The fundamental type corresponding to `String`.
    String,
    /// The fundamental type corresponding to an untyped pointer.
    Pointer,
    /// The fundamental type of dynamically typed variant containers.
    Variant,
    /// The fundamental type from which all interfaces are derived.
    BaseInterface,
    /// The fundamental type from which all enumeration types are derived.
    BaseEnum,
    /// The fundamental type from which all flags types are derived.
    BaseFlags,
    /// The fundamental type from which all boxed types are derived.
    BaseBoxed,
    /// The fundamental type from which all property descriptors are derived.
    BaseParamSpec,
    /// The fundamental type from which all object types are derived.
    BaseObject,
    /// A derived type, identified by the index the registry assigned to it.
    Other(usize),
}

impl Type {
    /// True for every type but `Invalid`.
    pub fn is_valid(&self) -> (r: bool)
        ensures
            r == (*self != Type::Invalid),
    {
        *self != Type::Invalid
    }

    /// True for derived (registry-assigned) types.
    pub open spec fn is_derived(self) -> bool {
        self is Other
    }

    /// The registry index of a derived type.
    pub open spec fn index(self) -> int
        recommends
            self.is_derived(),
    {
        self->Other_0 as int
    }
}

/// The display name of a fundamental type, as a sequence of characters.
pub open spec fn fundamental_name(t: Type) -> Seq<char> {
    match t {
        Type::Invalid => "<invalid>"@,
        Type::Unit => "void"@,
        Type::I8 => "gchar"@,
        Type::U8 => "guchar"@,
        Type::Bool => "gboolean"@,
        Type::I32 => "gint"@,
        Type::U32 => "guint"@,
        Type::I64 => "gint64"@,
        Type::U64 => "guint64"@,
        Type::F32 => "gfloat"@,
        Type::F64 => "gdouble"@,
        Type::String => "gchararray"@,
        Type::Pointer => "gpointer"@,
        Type::Variant => "GVariant"@,
        Type::BaseInterface => "GInterface"@,
        Type::BaseEnum => "GEnum"@,
        Type::BaseFlags => "GFlags"@,
        Type::BaseBoxed => "GBoxed"@,
        Type::BaseParamSpec => "GParam"@,
        Type::BaseObject => "GObject"@,
        Type::Other(_) => Seq::<char>::empty(),
    }
}

/// The display name of a fundamental type.
pub fn fundamental_name_of(t: Type) -> (r: String)
    requires
        !t.is_derived(),
    ensures
        r@ == fundamental_name(t),
{
    match t {
        Type::Invalid => String::from_str("<invalid>"),
        Type::Unit => String::from_str("void"),
        Type::I8 => String::from_str("gchar"),
        Type::U8 => String::from_str("guchar"),
        Type::Bool => String::from_str("gboolean"),
        Type::I32 => String::from_str("gint"),
        Type::U32 => String::from_str("guint"),
        Type::I64 => String::from_str("gint64"),
        Type::U64 => String::from_str("guint64"),
        Type::F32 => String::from_str("gfloat"),
        Type::F64 => String::from_str("gdouble"),
        Type::String => String::from_str("gchararray"),
        Type::Pointer => String::from_str("gpointer"),
        Type::Variant => String::from_str("GVariant"),
        Type::BaseInterface => String::from_str("GInterface"),
        Type::BaseEnum => String::from_str("GEnum"),
        Type::BaseFlags => String::from_str("GFlags"),
        Type::BaseBoxed => String::from_str("GBoxed"),
        Type::BaseParamSpec => String::from_str("GParam"),
        Type::BaseObject => String::from_str("GObject"),
        Type::Other(_) => String::new(),
    }
}

} // verus!
