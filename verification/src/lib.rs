//! Bidirectional conversion between typed values and a schema-less,
//! tagged dynamic value model.
//!
//! A [`value::FieldValue`] can hold any convertible scalar or composite.
//! The [`convert::Converter`] capability maps one concrete type to and
//! from that model; the [`record::Mapper`] capability maps a whole
//! record's fields to and from a string-keyed mapping of dynamic values.

pub mod containers;
pub mod convert;
pub mod error;
pub mod laws;
pub mod record;
pub mod value;
