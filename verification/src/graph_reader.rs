//! The collections that read chunks back: vertices by dense id, and edges
//! row by row and by endpoint.

pub mod edges;
pub mod labels;
pub mod ordered;
pub mod property_type;
pub mod vertices;

pub use property_type::SupportedPropertyType;
pub use vertices::{Vertex, VertexIter, Vertices};
pub use edges::{Edge, EdgeIter, Edges};
