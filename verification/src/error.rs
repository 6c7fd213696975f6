//! Error values for the object, property and signal operations.
//!
//! Every fallible operation reports its failure as a value of [`ObjectError`].
//! Each variant carries the names involved (property or signal name, the
//! type it was looked up on, expected and actual type names), so a caller can
//! build a diagnostic without querying the registry again.

use vstd::prelude::*;
use crate::strutil::{concat3, concat5, concat7, concat9};

verus! {

/// The failure taxonomy of the object runtime.
#[derive(Clone, Debug)]
pub enum ObjectError {
    /// No property of the given name exists on the type or its ancestors.
    PropertyNotFound { property: String, owner: String },
    /// The property exists but its flags do not allow reading.
    PropertyNotReadable { property: String, owner: String },
    /// The property exists but is not writable, or is construct-only and
    /// construction is over.
    PropertyNotWritable { property: String, owner: String },
    /// The supplied value's runtime type is not the declared type or a
    /// subtype of it.
    TypeMismatch { property: String, owner: String, expected: String, got: String },
    /// Validation rejected the value and the property does not allow lax
    /// validation.
    ValueOutOfRange { property: String, owner: String },
    /// No signal of the given name exists on the type or its ancestors.
    SignalNotFound { signal: String, owner: String },
    /// An emission supplied the wrong number of arguments.
    ArgumentCountMismatch { signal: String, expected: usize, got: usize },
    /// An emission supplied an argument of an incompatible type.
    ArgumentTypeMismatch { signal: String, index: usize, expected: String, got: String },
    /// The requested type cannot be instantiated.
    ConstructionFailed { owner: String },
    /// A generic failure with a descriptive message.
    OperationFailed { message: String },
}

/// The diagnostic text of an error, as a sequence of characters.
pub open spec fn spec_message(e: ObjectError) -> Seq<char> {
    match e {
        ObjectError::PropertyNotFound { property, owner } =>
            "property '"@ + property@ + "' of type '"@ + owner@ + "' not found"@,
        ObjectError::PropertyNotReadable { property, owner } =>
            "property '"@ + property@ + "' of type '"@ + owner@ + "' is not readable"@,
        ObjectError::PropertyNotWritable { property, owner } =>
            "property '"@ + property@ + "' of type '"@ + owner@ + "' is not writable"@,
        ObjectError::TypeMismatch { property, owner, expected, got } =>
            "property '"@ + property@ + "' of type '"@ + owner@
                + "' can't be set from the given type (expected: '"@ + expected@
                + "', got: '"@ + got@ + "')"@,
        ObjectError::ValueOutOfRange { property, owner } =>
            "property '"@ + property@ + "' of type '"@ + owner@
                + "' can't be set from the given value, it is invalid or out of range"@,
        ObjectError::SignalNotFound { signal, owner } =>
            "signal '"@ + signal@ + "' of type '"@ + owner@ + "' not found"@,
        ObjectError::ArgumentCountMismatch { signal, .. } =>
            "signal '"@ + signal@ + "': incompatible number of arguments"@,
        ObjectError::ArgumentTypeMismatch { signal, expected, got, .. } =>
            "signal '"@ + signal@ + "': incompatible argument type (expected: '"@ + expected@
                + "', got: '"@ + got@ + "')"@,
        ObjectError::ConstructionFailed { owner } =>
            "can't instantiate type '"@ + owner@ + "'"@,
        ObjectError::OperationFailed { message } => message@,
    }
}

impl ObjectError {
    /// The diagnostic text of the error.
    pub fn message(&self) -> (r: String)
        ensures
            r@ == spec_message(*self),
    {
        match self {
            ObjectError::PropertyNotFound { property, owner } => {
                concat5("property '", property.as_str(), "' of type '", owner.as_str(),
                    "' not found")
            },
            ObjectError::PropertyNotReadable { property, owner } => {
                concat5("property '", property.as_str(), "' of type '", owner.as_str(),
                    "' is not readable")
            },
            ObjectError::PropertyNotWritable { property, owner } => {
                concat5("property '", property.as_str(), "' of type '", owner.as_str(),
                    "' is not writable")
            },
            ObjectError::TypeMismatch { property, owner, expected, got } => {
                concat9("property '", property.as_str(), "' of type '", owner.as_str(),
                    "' can't be set from the given type (expected: '", expected.as_str(),
                    "', got: '", got.as_str(), "')")
            },
            ObjectError::ValueOutOfRange { property, owner } => {
                concat5("property '", property.as_str(), "' of type '", owner.as_str(),
                    "' can't be set from the given value, it is invalid or out of range")
            },
            ObjectError::SignalNotFound { signal, owner } => {
                concat5("signal '", signal.as_str(), "' of type '", owner.as_str(),
                    "' not found")
            },
            ObjectError::ArgumentCountMismatch { signal, .. } => {
                concat3("signal '", signal.as_str(), "': incompatible number of arguments")
            },
            ObjectError::ArgumentTypeMismatch { signal, expected, got, .. } => {
                concat7("signal '", signal.as_str(),
                    "': incompatible argument type (expected: '", expected.as_str(),
                    "', got: '", got.as_str(), "')")
            },
            ObjectError::ConstructionFailed { owner } => {
                concat3("can't instantiate type '", owner.as_str(), "'")
            },
            ObjectError::OperationFailed { message } => {
                let mut s = String::new();
                s.append(message.as_str());
                proof {
                    assert(s@ =~= spec_message(*self));
                }
                s
            },
        }
    }
}

/// The result is a property-not-found error carrying the given names.
pub open spec fn is_property_not_found<T>(
    r: Result<T, ObjectError>,
    property: Seq<char>,
    owner: Seq<char>,
) -> bool {
    match r {
        Result::Err(ObjectError::PropertyNotFound { property: p, owner: o }) => p@ == property
            && o@ == owner,
        _ => false,
    }
}

/// The result is a property-not-readable error carrying the given names.
pub open spec fn is_property_not_readable<T>(
    r: Result<T, ObjectError>,
    property: Seq<char>,
    owner: Seq<char>,
) -> bool {
    match r {
        Result::Err(ObjectError::PropertyNotReadable { property: p, owner: o }) => p@ == property
            && o@ == owner,
        _ => false,
    }
}

/// The result is a property-not-writable error carrying the given names.
pub open spec fn is_property_not_writable<T>(
    r: Result<T, ObjectError>,
    property: Seq<char>,
    owner: Seq<char>,
) -> bool {
    match r {
        Result::Err(ObjectError::PropertyNotWritable { property: p, owner: o }) => p@ == property
            && o@ == owner,
        _ => false,
    }
}

/// The result is a type-mismatch error carrying the given names.
pub open spec fn is_type_mismatch<T>(
    r: Result<T, ObjectError>,
    property: Seq<char>,
    owner: Seq<char>,
    expected: Seq<char>,
    got: Seq<char>,
) -> bool {
    match r {
        Result::Err(ObjectError::TypeMismatch { property: p, owner: o, expected: e, got: g }) => p@
            == property && o@ == owner && e@ == expected && g@ == got,
        _ => false,
    }
}

/// The result is a value-out-of-range error carrying the given names.
pub open spec fn is_value_out_of_range<T>(
    r: Result<T, ObjectError>,
    property: Seq<char>,
    owner: Seq<char>,
) -> bool {
    match r {
        Result::Err(ObjectError::ValueOutOfRange { property: p, owner: o }) => p@ == property && o@
            == owner,
        _ => false,
    }
}

/// The result is a signal-not-found error carrying the given names.
pub open spec fn is_signal_not_found<T>(
    r: Result<T, ObjectError>,
    signal: Seq<char>,
    owner: Seq<char>,
) -> bool {
    match r {
        Result::Err(ObjectError::SignalNotFound { signal: s, owner: o }) => s@ == signal && o@
            == owner,
        _ => false,
    }
}

/// The result is an argument-count-mismatch error with the given counts.
pub open spec fn is_argument_count_mismatch<T>(
    r: Result<T, ObjectError>,
    signal: Seq<char>,
    expected: int,
    got: int,
) -> bool {
    match r {
        Result::Err(ObjectError::ArgumentCountMismatch { signal: s, expected: e, got: g }) => s@
            == signal && e == expected && g == got,
        _ => false,
    }
}

/// The result is an argument-type-mismatch error at the given position.
pub open spec fn is_argument_type_mismatch<T>(
    r: Result<T, ObjectError>,
    signal: Seq<char>,
    index: int,
) -> bool {
    match r {
        Result::Err(ObjectError::ArgumentTypeMismatch { signal: s, index: i, .. }) => s@ == signal
            && i == index,
        _ => false,
    }
}

/// The result is a construction failure naming the given type.
pub open spec fn is_construction_failed<T>(r: Result<T, ObjectError>, owner: Seq<char>) -> bool {
    match r {
        Result::Err(ObjectError::ConstructionFailed { owner: o }) => o@ == owner,
        _ => false,
    }
}

/// The result is a generic operation failure.
pub open spec fn is_operation_failed<T>(r: Result<T, ObjectError>) -> bool {
    match r {
        Result::Err(ObjectError::OperationFailed { .. }) => true,
        _ => false,
    }
}

/// Generic error for operations that fail without further information.
#[derive(Clone, Copy, Debug)]
pub struct BoolError(pub &'static str);

impl BoolError {
    /// Turns the success flag of an operation into a result, keeping the
    /// static description for the failure case.
    pub fn from_bool(b: bool, s: &'static str) -> (r: Result<(), BoolError>)
        ensures
            r is Ok <==> b,
            b == false ==> r == Result::<(), BoolError>::Err(BoolError(s)),
    {
        if b {
            Ok(())
        } else {
            Err(BoolError(s))
        }
    }

    /// The static description of the failure.
    pub fn message(&self) -> (r: &'static str)
        ensures
            r == self.0,
    {
        self.0
    }
}

} // verus!
