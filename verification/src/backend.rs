//! The backend abstraction the tensor API routes through. A backend owns
//! the primitive tensor representations and the elementwise operations on
//! them; the contracts pin each routing function to the backend's own model
//! of the operation and state what every backend preserves: the shape, and
//! how the autodiff tracking flag moves.

use vstd::prelude::*;

verus! {

/// The elementwise float operations every backend provides.
#[derive(Clone, Copy, PartialEq, Eq, Structural)]
pub enum FloatUnaryOp {
    Exp,
    Log,
    Log1p,
    Erf,
    Recip,
    Sqrt,
    Cos,
    Sin,
    Tan,
    Cosh,
    Sinh,
    Tanh,
    Round,
    Floor,
    Ceil,
    Relu,
}

/// The floating-point precision a tensor can be cast to.
#[derive(Clone, Copy, PartialEq, Eq, Structural)]
pub enum FloatDType {
    F64,
    F32,
    F16,
    BF16,
}

/// The granularity of a quantization scheme.
#[derive(Clone, Copy, PartialEq, Eq, Structural)]
pub enum QuantLevel {
    Tensor,
    Block,
}

/// How quantized values map back to floats.
#[derive(Clone, Copy, PartialEq, Eq, Structural)]
pub enum QuantMode {
    Symmetric,
}

/// A quantization scheme: its granularity and its mode.
#[derive(Clone, Copy, PartialEq, Eq, Structural)]
pub struct QuantScheme {
    pub level: QuantLevel,
    pub mode: QuantMode,
}

/// Pre-computed quantization parameters in primitive form: per-block
/// scales, and offsets unless the scheme is symmetric.
pub struct QuantizationParametersPrimitive<B: Backend> {
    pub scales: B::FloatTensorPrimitive,
    pub offsets: Option<B::IntTensorPrimitive>,
}

/// A tensor backend: primitive representations plus the operations the
/// tensor API routes to. The specification functions model what each
/// operation returns; the executable methods promise to return exactly
/// that model, to preserve the shape, and to move the autodiff tracking
/// flag as documented.
pub trait Backend: Sized {
    type FloatTensorPrimitive;

    type IntTensorPrimitive;

    type QuantizedTensorPrimitive;

    spec fn float_shape(t: &Self::FloatTensorPrimitive) -> Seq<usize>;

    spec fn int_shape(t: &Self::IntTensorPrimitive) -> Seq<usize>;

    spec fn quant_shape(t: &Self::QuantizedTensorPrimitive) -> Seq<usize>;

    spec fn float_requires_grad(t: &Self::FloatTensorPrimitive) -> bool;

    spec fn quant_requires_grad(t: &Self::QuantizedTensorPrimitive) -> bool;

    spec fn float_unary_model(op: FloatUnaryOp, t: Self::FloatTensorPrimitive) -> Self::FloatTensorPrimitive;

    spec fn float_into_int_model(t: Self::FloatTensorPrimitive) -> Self::IntTensorPrimitive;

    spec fn float_detach_model(t: Self::FloatTensorPrimitive) -> Self::FloatTensorPrimitive;

    spec fn float_set_grad_model(t: Self::FloatTensorPrimitive, require_grad: bool) -> Self::FloatTensorPrimitive;

    spec fn q_set_grad_model(t: Self::QuantizedTensorPrimitive, require_grad: bool) -> Self::QuantizedTensorPrimitive;

    spec fn float_cast_model(t: Self::FloatTensorPrimitive, dtype: FloatDType) -> Self::FloatTensorPrimitive;

    spec fn quantize_model(
        t: Self::FloatTensorPrimitive,
        scheme: QuantScheme,
        scales: Self::FloatTensorPrimitive,
        offsets: Option<Self::IntTensorPrimitive>,
    ) -> Self::QuantizedTensorPrimitive;

    spec fn quantize_dynamic_model(
        t: Self::FloatTensorPrimitive,
        scheme: QuantScheme,
    ) -> Self::QuantizedTensorPrimitive;

    spec fn dequantize_model(t: Self::QuantizedTensorPrimitive) -> Self::FloatTensorPrimitive;

    fn float_unary(op: FloatUnaryOp, t: Self::FloatTensorPrimitive) -> (r: Self::FloatTensorPrimitive)
        ensures
            r == Self::float_unary_model(op, t),
            Self::float_shape(&r) == Self::float_shape(&t),
            Self::float_requires_grad(&r) == Self::float_requires_grad(&t),
    ;

    fn float_into_int(t: Self::FloatTensorPrimitive) -> (r: Self::IntTensorPrimitive)
        ensures
            r == Self::float_into_int_model(t),
            Self::int_shape(&r) == Self::float_shape(&t),
    ;

    fn float_detach(t: Self::FloatTensorPrimitive) -> (r: Self::FloatTensorPrimitive)
        ensures
            r == Self::float_detach_model(t),
            Self::float_shape(&r) == Self::float_shape(&t),
            !Self::float_requires_grad(&r),
    ;

    fn float_set_require_grad(t: Self::FloatTensorPrimitive, require_grad: bool) -> (r: Self::FloatTensorPrimitive)
        ensures
            r == Self::float_set_grad_model(t, require_grad),
            Self::float_shape(&r) == Self::float_shape(&t),
            Self::float_requires_grad(&r) == require_grad,
    ;

    fn float_is_require_grad(t: &Self::FloatTensorPrimitive) -> (r: bool)
        ensures
            r == Self::float_requires_grad(t),
    ;

    fn q_set_require_grad(t: Self::QuantizedTensorPrimitive, require_grad: bool) -> (r: Self::QuantizedTensorPrimitive)
        ensures
            r == Self::q_set_grad_model(t, require_grad),
            Self::quant_shape(&r) == Self::quant_shape(&t),
            Self::quant_requires_grad(&r) == require_grad,
    ;

    fn q_is_require_grad(t: &Self::QuantizedTensorPrimitive) -> (r: bool)
        ensures
            r == Self::quant_requires_grad(t),
    ;

    fn float_cast(t: Self::FloatTensorPrimitive, dtype: FloatDType) -> (r: Self::FloatTensorPrimitive)
        ensures
            r == Self::float_cast_model(t, dtype),
            Self::float_shape(&r) == Self::float_shape(&t),
    ;

    fn quantize(
        t: Self::FloatTensorPrimitive,
        scheme: &QuantScheme,
        qparams: QuantizationParametersPrimitive<Self>,
    ) -> (r: Self::QuantizedTensorPrimitive)
        ensures
            r == Self::quantize_model(t, *scheme, qparams.scales, qparams.offsets),
            Self::quant_shape(&r) == Self::float_shape(&t),
    ;

    fn quantize_dynamic(t: Self::FloatTensorPrimitive, scheme: &QuantScheme) -> (r: Self::QuantizedTensorPrimitive)
        ensures
            r == Self::quantize_dynamic_model(t, *scheme),
            Self::quant_shape(&r) == Self::float_shape(&t),
    ;

    fn dequantize(t: Self::QuantizedTensorPrimitive) -> (r: Self::FloatTensorPrimitive)
        ensures
            r == Self::dequantize_model(t),
            Self::float_shape(&r) == Self::quant_shape(&t),
    ;
}

} // verus!
