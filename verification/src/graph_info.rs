//! The schema of a graph: data types, properties and their groups, adjacency
//! lists, and the descriptions of vertex types, edge types and whole graphs.

pub mod data_type;
pub mod descriptor;
pub mod edge_info;
pub mod graph;
pub mod property;
pub mod version;
pub mod vertex_info;

pub use data_type::{DataType, Type};
pub use property::{
    Cardinality, FileType, Property, PropertyGroup, PropertyGroupVector, PropertyVec,
};
pub use version::InfoVersion;
pub use vertex_info::VertexInfo;
pub use edge_info::{AdjListType, AdjacentList, AdjacentListVector, EdgeInfo};
pub use graph::GraphInfo;
pub use descriptor::{EdgeDescriptor, GraphDescriptor, PropertyGroupDescriptor, VertexDescriptor};
