//! Tests for the variant container.

use gobject::variant::{FromVariant, ToVariant, Variant, VariantPayload};

#[test]
fn test_string() {
    let s = String::from("this is a test");
    let v = Variant::from(s.clone());
    assert_eq!(v.get(), Some(s));
}

#[test]
fn test_eq() {
    let v1 = Variant::from("this is a test");
    let v2 = Variant::from("this is a test");
    let v3 = Variant::from("test");
    assert_eq!(v1, v2);
    assert!(v1 != v3);
}

#[test]
fn test_str() {
    let s = "this is a test";
    let v = Variant::from(s);
    assert_eq!(v.get_str(), Some(s));
}

#[test]
fn variant_str_of_numbers_is_none() {
    let n = 7u64.to_variant();
    assert_eq!(n.get_str(), None);
}

#[test]
fn variant_round_trips() {
    assert_eq!(true.to_variant().get::<bool>(), Some(true));
    assert_eq!(7u8.to_variant().get::<u8>(), Some(7));
    assert_eq!((-3i16).to_variant().get::<i16>(), Some(-3));
    assert_eq!(9u16.to_variant().get::<u16>(), Some(9));
    assert_eq!((-11i32).to_variant().get::<i32>(), Some(-11));
    assert_eq!(13u32.to_variant().get::<u32>(), Some(13));
    assert_eq!((-17i64).to_variant().get::<i64>(), Some(-17));
    assert_eq!(u64::MAX.to_variant().get::<u64>(), Some(u64::MAX));
}

#[test]
fn variant_type_mismatch() {
    let n = 10i32.to_variant();
    assert!(n.get::<bool>().is_none());
    assert!(n.get::<u32>().is_none());
    assert_eq!(n.get::<i32>(), Some(10));
}

#[test]
fn variant_type_strings() {
    assert_eq!(true.to_variant().type_str(), "b");
    assert_eq!(1u8.to_variant().type_str(), "y");
    assert_eq!(1i16.to_variant().type_str(), "n");
    assert_eq!(1u16.to_variant().type_str(), "q");
    assert_eq!(1i32.to_variant().type_str(), "i");
    assert_eq!(1u32.to_variant().type_str(), "u");
    assert_eq!(1i64.to_variant().type_str(), "x");
    assert_eq!(1u64.to_variant().type_str(), "t");
    assert_eq!(Variant::from("a").type_str(), "s");
}

#[test]
fn variant_payload_access() {
    let v = Variant { payload: VariantPayload::Bool(false) };
    assert_eq!(v.get::<bool>(), Some(false));
}
