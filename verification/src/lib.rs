//! Value specifications, signals and ECU configuration parameter values of an
//! AUTOSAR model, written against a plain-value model of the element tree.

pub mod element;
pub mod chardata;
pub mod error;
pub mod values;
pub mod encoding;
pub mod parameter;
pub mod text;
pub mod signal;
