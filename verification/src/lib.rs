//! A verified core for deriving a GraphQL-style input-object binding from a
//! declarative record descriptor.
//!
//! The descriptor of a record type is turned, after validation, into an
//! artifact bundle of three mutually consistent contracts: schema
//! registration (`create_type_info`), extraction of a record instance from a
//! dynamic value (`parse`), and serialization of an instance back into a
//! dynamic value (`to_value`). A field marked *flatten* composes a nested
//! record's fields directly into the enclosing record's schema and value
//! representation.

pub mod descriptor;
pub mod generate;
pub mod laws;
pub mod names;
pub mod parse;
pub mod plan;
pub mod render;
pub mod schema;
pub mod serialize;
pub mod value;
