//! Core of a multi-backend database client: one uniform command surface over
//! relational, document and key-value stores, with every native result
//! normalized into a single tabular shape.
//!
//! The network drivers themselves are collaborators outside this crate; this
//! library holds the logic worth specifying: value normalization, the two
//! embedded command grammars, tabular assembly, and the connection registry.

pub mod document;
pub mod error;
pub mod keyvalue;
pub mod normalize;
pub mod registry;
pub mod relational;
pub mod router;
pub mod tabular;
pub mod text;
pub mod types;
pub mod value;
