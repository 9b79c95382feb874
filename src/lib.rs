//! Type-directed field coercion and validation.
//!
//! A record arrives as an ordered list of field descriptors (name, declared
//! type token, raw value). Each value is coerced into the native
//! representation of its declared type and reported valid or invalid, with
//! per-field failure isolation and the input order kept.
pub mod coerce;
pub mod error;
pub mod field;
pub mod numeric;
pub mod temporal;
pub mod text;
pub mod timestamp;
pub mod validate;
pub mod value;
