//! An immutable, dynamically typed value container.
//!
//! A [`Variant`] carries exactly one value; its type and payload are fixed
//! at construction.  The [`ToVariant`] and [`FromVariant`] traits convert
//! between host values and variants; extraction succeeds exactly when the
//! variant carries the requested type.

use vstd::prelude::*;
use crate::strutil::str_eq;

verus! {

/// The payload of a variant.
#[derive(Clone, Debug)]
pub enum VariantPayload {
    /// A boolean, type string `b`.
    Bool(bool),
    /// An unsigned byte, type string `y`.
    U8(u8),
    /// A signed 16-bit integer, type string `n`.
    I16(i16),
    /// An unsigned 16-bit integer, type string `q`.
    U16(u16),
    /// A signed 32-bit integer, type string `i`.
    I32(i32),
    /// An unsigned 32-bit integer, type string `u`.
    U32(u32),
    /// A signed 64-bit integer, type string `x`.
    I64(i64),
    /// An unsigned 64-bit integer, type string `t`.
    U64(u64),
    /// A string, type string `s`.
    Str(String),
}

/// A generic immutable value capable of carrying various types.
#[derive(Clone, Debug)]
pub struct Variant {
    /// The value carried.
    pub payload: VariantPayload,
}

/// Two payloads carry the same value.
pub open spec fn payload_eq(a: VariantPayload, b: VariantPayload) -> bool {
    match (a, b) {
        (VariantPayload::Bool(x), VariantPayload::Bool(y)) => x == y,
        (VariantPayload::U8(x), VariantPayload::U8(y)) => x == y,
        (VariantPayload::I16(x), VariantPayload::I16(y)) => x == y,
        (VariantPayload::U16(x), VariantPayload::U16(y)) => x == y,
        (VariantPayload::I32(x), VariantPayload::I32(y)) => x == y,
        (VariantPayload::U32(x), VariantPayload::U32(y)) => x == y,
        (VariantPayload::I64(x), VariantPayload::I64(y)) => x == y,
        (VariantPayload::U64(x), VariantPayload::U64(y)) => x == y,
        (VariantPayload::Str(x), VariantPayload::Str(y)) => x@ == y@,
        _ => false,
    }
}

impl PartialEq for Variant {
    fn eq(&self, other: &Variant) -> (r: bool) {
        match (&self.payload, &other.payload) {
            (VariantPayload::Bool(x), VariantPayload::Bool(y)) => *x == *y,
            (VariantPayload::U8(x), VariantPayload::U8(y)) => *x == *y,
            (VariantPayload::I16(x), VariantPayload::I16(y)) => *x == *y,
            (VariantPayload::U16(x), VariantPayload::U16(y)) => *x == *y,
            (VariantPayload::I32(x), VariantPayload::I32(y)) => *x == *y,
            (VariantPayload::U32(x), VariantPayload::U32(y)) => *x == *y,
            (VariantPayload::I64(x), VariantPayload::I64(y)) => *x == *y,
            (VariantPayload::U64(x), VariantPayload::U64(y)) => *x == *y,
            (VariantPayload::Str(x), VariantPayload::Str(y)) => str_eq(x.as_str(), y.as_str()),
            _ => false,
        }
    }
}

impl vstd::std_specs::cmp::PartialEqSpecImpl for Variant {
    open spec fn obeys_eq_spec() -> bool {
        true
    }

    open spec fn eq_spec(&self, other: &Variant) -> bool {
        payload_eq(self.payload, other.payload)
    }
}

impl Eq for Variant {}

impl Variant {
    /// The variant's type string: one character naming the carried type.
    pub fn type_str(&self) -> (r: &'static str)
        ensures
            r@ == (match self.payload {
                VariantPayload::Bool(_) => "b"@,
                VariantPayload::U8(_) => "y"@,
                VariantPayload::I16(_) => "n"@,
                VariantPayload::U16(_) => "q"@,
                VariantPayload::I32(_) => "i"@,
                VariantPayload::U32(_) => "u"@,
                VariantPayload::I64(_) => "x"@,
                VariantPayload::U64(_) => "t"@,
                VariantPayload::Str(_) => "s"@,
            }),
    {
        match &self.payload {
            VariantPayload::Bool(_) => "b",
            VariantPayload::U8(_) => "y",
            VariantPayload::I16(_) => "n",
            VariantPayload::U16(_) => "q",
            VariantPayload::I32(_) => "i",
            VariantPayload::U32(_) => "u",
            VariantPayload::I64(_) => "x",
            VariantPayload::U64(_) => "t",
            VariantPayload::Str(_) => "s",
        }
    }

    /// Tries to extract a value of type `T`; succeeds exactly when the
    /// variant carries that type.
    pub fn get<T: FromVariant>(&self) -> (r: Option<T>)
        ensures
            r == T::from_variant_spec(*self),
    {
        T::from_variant(self)
    }

    /// Tries to borrow the carried string; `None` for non-string variants.
    pub fn get_str(&self) -> (r: Option<&str>)
        ensures
            match self.payload {
                VariantPayload::Str(s) => r is Some && r->0@ == s@,
                _ => r is None,
            },
    {
        match &self.payload {
            VariantPayload::Str(s) => Some(s.as_str()),
            _ => None,
        }
    }
}

/// Converts to `Variant`.
pub trait ToVariant {
    /// The variant `to_variant` returns.
    spec fn to_variant_spec(&self) -> Variant;

    /// Returns a `Variant` carrying a copy of `self`.
    fn to_variant(&self) -> (r: Variant)
        ensures
            r == self.to_variant_spec(),
    ;
}

/// Extracts a value from a `Variant`.
pub trait FromVariant: Sized {
    /// The value `from_variant` extracts.
    spec fn from_variant_spec(variant: Variant) -> Option<Self>;

    /// Tries to extract a value; succeeds exactly when the variant carries
    /// this type.
    fn from_variant(variant: &Variant) -> (r: Option<Self>)
        ensures
            r == Self::from_variant_spec(*variant),
    ;
}

impl ToVariant for bool {
    open spec fn to_variant_spec(&self) -> Variant {
        Variant { payload: VariantPayload::Bool(*self) }
    }

    fn to_variant(&self) -> (r: Variant) {
        Variant { payload: VariantPayload::Bool(*self) }
    }
}

impl FromVariant for bool {
    open spec fn from_variant_spec(variant: Variant) -> Option<bool> {
        match variant.payload {
            VariantPayload::Bool(b) => Some(b),
            _ => None,
        }
    }

    fn from_variant(variant: &Variant) -> (r: Option<bool>) {
        match &variant.payload {
            VariantPayload::Bool(b) => Some(*b),
            _ => None,
        }
    }
}

impl ToVariant for u8 {
    open spec fn to_variant_spec(&self) -> Variant {
        Variant { payload: VariantPayload::U8(*self) }
    }

    fn to_variant(&self) -> (r: Variant) {
        Variant { payload: VariantPayload::U8(*self) }
    }
}

impl FromVariant for u8 {
    open spec fn from_variant_spec(variant: Variant) -> Option<u8> {
        match variant.payload {
            VariantPayload::U8(n) => Some(n),
            _ => None,
        }
    }

    fn from_variant(variant: &Variant) -> (r: Option<u8>) {
        match &variant.payload {
            VariantPayload::U8(n) => Some(*n),
            _ => None,
        }
    }
}

impl ToVariant for i16 {
    open spec fn to_variant_spec(&self) -> Variant {
        Variant { payload: VariantPayload::I16(*self) }
    }

    fn to_variant(&self) -> (r: Variant) {
        Variant { payload: VariantPayload::I16(*self) }
    }
}

impl FromVariant for i16 {
    open spec fn from_variant_spec(variant: Variant) -> Option<i16> {
        match variant.payload {
            VariantPayload::I16(n) => Some(n),
            _ => None,
        }
    }

    fn from_variant(variant: &Variant) -> (r: Option<i16>) {
        match &variant.payload {
            VariantPayload::I16(n) => Some(*n),
            _ => None,
        }
    }
}

impl ToVariant for u16 {
    open spec fn to_variant_spec(&self) -> Variant {
        Variant { payload: VariantPayload::U16(*self) }
    }

    fn to_variant(&self) -> (r: Variant) {
        Variant { payload: VariantPayload::U16(*self) }
    }
}

impl FromVariant for u16 {
    open spec fn from_variant_spec(variant: Variant) -> Option<u16> {
        match variant.payload {
            VariantPayload::U16(n) => Some(n),
            _ => None,
        }
    }

    fn from_variant(variant: &Variant) -> (r: Option<u16>) {
        match &variant.payload {
            VariantPayload::U16(n) => Some(*n),
            _ => None,
        }
    }
}

impl ToVariant for i32 {
    open spec fn to_variant_spec(&self) -> Variant {
        Variant { payload: VariantPayload::I32(*self) }
    }

    fn to_variant(&self) -> (r: Variant) {
        Variant { payload: VariantPayload::I32(*self) }
    }
}

impl FromVariant for i32 {
    open spec fn from_variant_spec(variant: Variant) -> Option<i32> {
        match variant.payload {
            VariantPayload::I32(n) => Some(n),
            _ => None,
        }
    }

    fn from_variant(variant: &Variant) -> (r: Option<i32>) {
        match &variant.payload {
            VariantPayload::I32(n) => Some(*n),
            _ => None,
        }
    }
}

impl ToVariant for u32 {
    open spec fn to_variant_spec(&self) -> Variant {
        Variant { payload: VariantPayload::U32(*self) }
    }

    fn to_variant(&self) -> (r: Variant) {
        Variant { payload: VariantPayload::U32(*self) }
    }
}

impl FromVariant for u32 {
    open spec fn from_variant_spec(variant: Variant) -> Option<u32> {
        match variant.payload {
            VariantPayload::U32(n) => Some(n),
            _ => None,
        }
    }

    fn from_variant(variant: &Variant) -> (r: Option<u32>) {
        match &variant.payload {
            VariantPayload::U32(n) => Some(*n),
            _ => None,
        }
    }
}

impl ToVariant for i64 {
    open spec fn to_variant_spec(&self) -> Variant {
        Variant { payload: VariantPayload::I64(*self) }
    }

    fn to_variant(&self) -> (r: Variant) {
        Variant { payload: VariantPayload::I64(*self) }
    }
}

impl FromVariant for i64 {
    open spec fn from_variant_spec(variant: Variant) -> Option<i64> {
        match variant.payload {
            VariantPayload::I64(n) => Some(n),
            _ => None,
        }
    }

    fn from_variant(variant: &Variant) -> (r: Option<i64>) {
        match &variant.payload {
            VariantPayload::I64(n) => Some(*n),
            _ => None,
        }
    }
}

impl ToVariant for u64 {
    open spec fn to_variant_spec(&self) -> Variant {
        Variant { payload: VariantPayload::U64(*self) }
    }

    fn to_variant(&self) -> (r: Variant) {
        Variant { payload: VariantPayload::U64(*self) }
    }
}

impl FromVariant for u64 {
    open spec fn from_variant_spec(variant: Variant) -> Option<u64> {
        match variant.payload {
            VariantPayload::U64(n) => Some(n),
            _ => None,
        }
    }

    fn from_variant(variant: &Variant) -> (r: Option<u64>) {
        match &variant.payload {
            VariantPayload::U64(n) => Some(*n),
            _ => None,
        }
    }
}

impl ToVariant for String {
    open spec fn to_variant_spec(&self) -> Variant {
        Variant { payload: VariantPayload::Str(*self) }
    }

    fn to_variant(&self) -> (r: Variant) {
        Variant { payload: VariantPayload::Str(self.clone()) }
    }
}

impl FromVariant for String {
    open spec fn from_variant_spec(variant: Variant) -> Option<String> {
        match variant.payload {
            VariantPayload::Str(s) => Some(s),
            _ => None,
        }
    }

    fn from_variant(variant: &Variant) -> (r: Option<String>) {
        match &variant.payload {
            VariantPayload::Str(s) => Some(s.clone()),
            _ => None,
        }
    }
}

/// The round trip through a variant is the identity: converting a value to
/// a variant and extracting it again gives the value back, for every value
/// of every convertible type.
pub proof fn lemma_variant_round_trip_bool(b: bool)
    ensures
        <bool as FromVariant>::from_variant_spec(b.to_variant_spec()) == Some(b),
{
}

/// The round trip for strings: what goes in comes out.
pub proof fn lemma_variant_round_trip_string(s: String)
    ensures
        <String as FromVariant>::from_variant_spec(s.to_variant_spec()) == Some(s),
{
}

/// The round trip for unsigned 64-bit integers.
pub proof fn lemma_variant_round_trip_u64(n: u64)
    ensures
        <u64 as FromVariant>::from_variant_spec(n.to_variant_spec()) == Some(n),
{
}

impl From<String> for Variant {
    fn from(s: String) -> (r: Variant) {
        Variant { payload: VariantPayload::Str(s) }
    }
}

impl vstd::std_specs::convert::FromSpecImpl<String> for Variant {
    open spec fn obeys_from_spec() -> bool {
        true
    }

    open spec fn from_spec(s: String) -> Variant {
        Variant { payload: VariantPayload::Str(s) }
    }
}

impl<'a> From<&'a str> for Variant {
    fn from(s: &'a str) -> (r: Variant) {
        Variant { payload: VariantPayload::Str(String::from_str(s)) }
    }
}

impl<'a> vstd::std_specs::convert::FromSpecImpl<&'a str> for Variant {
    open spec fn obeys_from_spec() -> bool {
        false
    }

    open spec fn from_spec(s: &'a str) -> Variant {
        Variant { payload: VariantPayload::Str(vstd::pervasive::arbitrary()) }
    }
}

} // verus!
