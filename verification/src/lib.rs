//! A dynamic object and signal/property runtime.
//!
//! The crate models a reflective object system: runtime type identity with an
//! `is_a` lineage relation, reference-counted object instances, introspectable
//! properties with access flags and validation, and a publish/subscribe signal
//! mechanism with connect/emit/block/disconnect.  All bookkeeping that a
//! foreign object runtime would keep in process-global state is held in an
//! explicit [`object::Runtime`] value, so every transition is a verified
//! function from one runtime state to the next.

pub mod types;
pub mod strutil;
pub mod error;
pub mod value;
pub mod params;
pub mod signals;
pub mod subclass;
pub mod registry;
pub mod object;
pub mod binding;
pub mod variant;
pub mod utils;
