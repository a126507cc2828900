pub mod blocks;
pub mod iteration;
pub mod matrix;
pub mod paint;
pub mod point;
pub mod step;

pub use crate::blocks::indexes_step_by;
pub use crate::iteration::Iteration;
pub use crate::matrix::{Matrix, VecMatrix};
pub use crate::paint::{Palette, Rgb};
pub use crate::point::Point;
pub use crate::step::{GetCloser, step_limit};
