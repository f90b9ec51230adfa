//! Layout, indexing and packing of a square terrain mesh into one flat buffer.
//!
//! A grid with `resolution` quads per axis has `(resolution + 1)^2` vertices.
//! Its buffer holds three position slots, three normal slots and two texture
//! coordinate slots per vertex, section after section, followed by six index
//! slots per quad. The element type of the buffer is the caller's: the crate
//! decides where every value goes, the caller what the values are.

pub mod grid;
pub mod indices;
pub mod layout;
pub mod mesh;
pub mod range;

pub use crate::grid::{GridPoint, GridVertex};
pub use crate::layout::{MeshError, MeshLayout, MAX_RESOLUTION};
pub use crate::mesh::{generate_terrain_mesh, pack_mesh, VertexAttributes};
pub use crate::range::{get_range_from_array, RangeError};
