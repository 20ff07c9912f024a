//! N-dimensional arrays over contiguous storage: shapes, row-major strides,
//! checked element access, views, reshaping and element-wise addition.

pub mod math;
pub mod dimension;
pub mod layout;
pub mod repr;
pub mod array;
pub mod ops;
pub mod laws;

pub use crate::array::{Array, ArrayBase, ArrayView, ArrayViewMut, ShapeError};
pub use crate::dimension::{Dim, Dimension, IxDyn};
pub use crate::layout::{Layout, LayoutRef};
pub use crate::repr::{Data, DataMut, OwnedRepr, ViewMutRepr, ViewRepr};
