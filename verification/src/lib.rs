//! A software rasterization library: integer vector and matrix algebra,
//! a generic pixel framebuffer with Bresenham line drawing, a triangle
//! rasterizer with a depth buffer and perspective-correct interpolation,
//! a Wavefront OBJ mesh reader, and an uncompressed BMP codec.

pub mod bmp;
pub mod color;
pub mod fx;
pub mod mat;
pub mod model;
pub mod obj;
pub mod renderer;
pub mod shader;
pub mod vec;
pub mod image;

pub use color::Color;
pub use vec::{Vec2, Vec3, Vec4};
pub use mat::{Mat2, Mat3, Mat4};
pub use model::{compute_tangent_space, Bary, Model, TanVert, Vert, Vertex};
pub use renderer::{Renderer, Shader};
pub use shader::{CheckerShader, FlatShader};
pub use obj::{VertexIndex, normalize_indices, parse_vertex};
pub use image::Image;
pub use bmp::{read_bmp, write_bmp};
