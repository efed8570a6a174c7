//! The builders that buffer vertices and edges and cut them into chunks.

pub mod edges;
pub mod record;
pub mod vertices;

pub use record::{EdgeBuilder, SupportedDataType, VertexBuilder};
pub use vertices::VerticesBuilder;
pub use edges::EdgesBuilder;
