//! Importer for a COLLADA-style scene-description document.
//!
//! The document is consumed as an already-materialized attributed element
//! tree and turned into a strongly-typed, cross-referenced scene model:
//! named data layers (sources), meshes with de-interleaved vertex index
//! streams, skins with per-vertex bone influences, bone hierarchies, and
//! scenes that instantiate library entries.

pub mod animation;
pub mod array;
pub mod asset;
pub mod camera;
pub mod controller;
pub mod document;
pub mod error;
pub mod float;
pub mod geometry;
pub mod location;
pub mod mesh;
pub mod node;
pub mod registry;
pub mod scene;
pub mod skeleton;
pub mod skin;
pub mod source;
pub mod text;
pub mod tree_printer;
pub mod xml;

pub use animation::Animation;
pub use array::ArrayIter;
pub use asset::Asset;
pub use asset::Axis;
pub use asset::Editor;
pub use camera::Camera;
pub use controller::Controller;
pub use document::Document;
pub use error::Error;
pub use error::NumericKind;
pub use geometry::Geometry;
pub use location::Location;
pub use location::Matrix;
pub use location::Position;
pub use location::Quaternion;
pub use location::Scale;
pub use mesh::Mesh;
pub use mesh::Polygon;
pub use mesh::VertexIndices;
pub use node::Node;
pub use scene::Scene;
pub use skeleton::Bone;
pub use skeleton::Skeleton;
pub use skin::BoneIndices;
pub use skin::BonesPerVertex;
pub use skin::Skin;
pub use source::DataType;
pub use source::LayerType;
pub use source::Source;
pub use source::SourceLayer;
pub use tree_printer::TreePrinter;
