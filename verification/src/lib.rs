//! A format and access library for property graphs stored as directories of
//! chunked, columnar files: the typed schema, the builders that cut buffered
//! records into chunks, and the collections that read chunks back by dense id
//! and by adjacency.

pub mod adjacency;
pub mod chunk;
pub mod error;
pub mod graph_builder;
pub mod graph_info;
pub mod graph_reader;
pub mod layout;
pub mod text;
pub mod value;
