//! Verified core of a 2-D morphological filtering engine: separable
//! (row/column) and general (arbitrary structuring-element) min/max filters
//! over dense multi-channel pixel buffers, together with the tensor routing
//! API and the graph-import configuration helpers that surround it.

pub mod backend;
pub mod column;
pub mod filter2d;
pub mod geometry;
pub mod laws;
pub mod onnx;
pub mod ops;
pub mod reduce;
pub mod reference;
pub mod row;
pub mod tensor;

pub use column::MorphColumnFilter;
pub use column::MorphColumnVec;
pub use column::VecColumn;
pub use filter2d::process_2d_kernel;
pub use filter2d::MorphFilter;
pub use filter2d::MorphVec;
pub use filter2d::VecFilter;
pub use geometry::Element;
pub use geometry::Point;
pub use geometry::Size;
pub use ops::MaxOp;
pub use ops::MinMax;
pub use ops::MinOp;
pub use ops::MorphOperator;
pub use ops::VecMorphOperator;
pub use row::MorphRowFilter;
pub use row::MorphRowVec;
pub use row::VecRow;
pub use tensor::IntTensor;
pub use tensor::Tensor;
pub use tensor::TensorPrimitive;
