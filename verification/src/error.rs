//! The error type of the library.

use vstd::prelude::*;
use crate::element::ElementName;

verus! {

/// Errors of the abstraction layer.
#[derive(Debug, Clone, PartialEq)]
pub enum AutosarAbstractionError {
    /// a parameter of a call was not acceptable
    InvalidParameter(String),
    /// a value could not be converted to the destination type
    ValueConversionError { value: String, dest: String },
    /// an element could not be converted to the destination type
    ConversionError { element: ElementName, dest: String },
    /// an element that the operation needs does not exist
    ItemDeleted,
}

} // verus!
