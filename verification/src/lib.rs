//! Voxel grids, their binary file format, and the face-culling mesher that
//! turns a grid into the axis-aligned quads of its visible surface.

pub mod colour;
pub mod decode;
pub mod geometry;
pub mod grid;
pub mod mesh;
pub mod render;
pub mod surface;
