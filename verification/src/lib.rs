//! A small 3D wireframe renderer core, written over exact fixed-point
//! arithmetic (16 fractional bits).
//!
//! The crate models a classic toy pipeline: vectors and rotation matrices,
//! triangles with backface culling and flat lighting, rectangles and cubes
//! composed from triangles, perspective projection and screen mapping, and
//! a loader for a plain-text mesh format.  Every scalar is an `i64` holding
//! a real value scaled by `FP_ONE`, so every stage carries an exact
//! contract; `draw` returns the screen-space outline and shade instead of
//! touching a canvas, which is the host's business.

pub mod vector;
pub mod rotation;
pub mod triangle;
pub mod rectangle;
pub mod cube;
pub mod mesh;

pub use vector::Axis;
pub use vector::Vector;
pub use vector::FP_ONE;
pub use vector::cross_product;
pub use vector::dot_product;
pub use rotation::Mat3;
pub use rotation::get_rotation_mat;
pub use rotation::mat_vec_mul;
pub use triangle::Triangle;
pub use triangle::DrawCommand;
pub use triangle::ScreenPoint;
pub use rectangle::Rectangle;
pub use cube::Cube;
pub use mesh::Mesh;
pub use mesh::MeshError;
