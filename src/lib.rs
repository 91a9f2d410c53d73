//! Fixed-shape matrices stored in row-major order, with verified element
//! access, construction, elementwise arithmetic, reshape, transpose and
//! matrix multiplication.
pub mod algebra;
pub mod element;
pub mod grid;
pub mod matrix;
pub mod ops;

pub use element::Element;
pub use matrix::{ShapeError, MX, VC, VR};
pub use ops::{BinOp, UnOp};
