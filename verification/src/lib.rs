//! Decoding of a YAML event stream: the events of one document are collected
//! into a flat list with an index of its anchors, and a cursor over that list
//! tells a consumer, node by node, what the document holds.
//!
//! `from_str` and `from_slice` read a text into a `Loader`. A `Deserializer`
//! is a cursor over what the loader holds. It answers one question at a time:
//! what begins here (`visit`), whether a value is absent
//! (`deserialize_option`), in which form a variant is written
//! (`deserialize_enum`), whether a collection has another item
//! (`CollectionVisitor`), and it closes a collection (`end_sequence`,
//! `end_mapping`). The consumer builds its values from the answers.

pub mod decode;
pub mod error;
pub mod event;
pub mod laws;
pub mod loader;
pub mod number;
pub mod scalar;
pub mod source;
pub mod text;

pub use crate::decode::Deserializer;
pub use crate::error::Error;
pub use crate::loader::Loader;
pub use crate::source::{from_slice, from_str};
