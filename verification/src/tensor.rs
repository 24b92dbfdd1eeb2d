//! The tensor API: thin routing over a backend. Every method's contract
//! pins the returned primitive to the backend's model of the operation, so
//! a method that routed to the wrong operation, dropped the quantized case,
//! or rebuilt the tensor with the wrong variant would not verify.

use vstd::prelude::*;

use crate::backend::Backend;
use crate::backend::FloatDType;
use crate::backend::FloatUnaryOp;
use crate::backend::QuantScheme;
use crate::backend::QuantizationParametersPrimitive;

verus! {

/// The primitive a tensor holds: a float tensor, or a quantized one.
pub enum TensorPrimitive<B: Backend> {
    Float(B::FloatTensorPrimitive),
    QFloat(B::QuantizedTensorPrimitive),
}

impl<B: Backend> TensorPrimitive<B> {
    /// The float tensor this primitive stands for: itself, or the
    /// dequantized value of a quantized primitive.
    pub open spec fn float_value(self) -> B::FloatTensorPrimitive {
        match self {
            TensorPrimitive::Float(t) => t,
            TensorPrimitive::QFloat(q) => B::dequantize_model(q),
        }
    }

    /// The primitive's shape.
    pub open spec fn shape_spec(&self) -> Seq<usize> {
        match self {
            TensorPrimitive::Float(t) => B::float_shape(t),
            TensorPrimitive::QFloat(q) => B::quant_shape(q),
        }
    }

    /// Whether the primitive is tracked for autodiff.
    pub open spec fn grad_spec(&self) -> bool {
        match self {
            TensorPrimitive::Float(t) => B::float_requires_grad(t),
            TensorPrimitive::QFloat(q) => B::quant_requires_grad(q),
        }
    }

    /// The float tensor, dequantizing on the fly when needed.
    pub fn tensor(self) -> (r: B::FloatTensorPrimitive)
        ensures
            r == self.float_value(),
            B::float_shape(&r) == self.shape_spec(),
    {
        match self {
            TensorPrimitive::Float(t) => t,
            TensorPrimitive::QFloat(q) => B::dequantize(q),
        }
    }
}

/// A tensor of rank `D` over backend `B`.
pub struct Tensor<B: Backend, const D: usize> {
    pub primitive: TensorPrimitive<B>,
}

/// An integer tensor of rank `D` over backend `B`.
pub struct IntTensor<B: Backend, const D: usize> {
    pub primitive: B::IntTensorPrimitive,
}

/// Pre-computed quantization parameters: per-block scales and, unless the
/// scheme is symmetric, offsets.
pub struct QuantizationParameters<B: Backend> {
    pub scales: Tensor<B, 1>,
    pub offsets: Option<IntTensor<B, 1>>,
}

impl<B: Backend, const D: usize> Tensor<B, D> {
    /// The tensor's shape.
    pub open spec fn shape_spec(&self) -> Seq<usize> {
        self.primitive.shape_spec()
    }

    pub fn new(primitive: TensorPrimitive<B>) -> (r: Self)
        ensures
            r.primitive == primitive,
    {
        Tensor { primitive }
    }

    pub fn into_primitive(self) -> (r: TensorPrimitive<B>)
        ensures
            r == self.primitive,
    {
        self.primitive
    }

    /// Routes one elementwise operation to the backend and rewraps the
    /// result as a plain float tensor.
    fn unary_inner(self, op: FloatUnaryOp) -> (r: Self)
        ensures
            r.primitive == TensorPrimitive::<B>::Float(
                B::float_unary_model(op, self.primitive.float_value()),
            ),
            r.shape_spec() == self.shape_spec(),
    {
        Self::new(TensorPrimitive::Float(B::float_unary(op, self.primitive.tensor())))
    }

    /// Applies the elementwise exponential operation.
    pub fn exp(self) -> (r: Self)
        ensures
            r.primitive == TensorPrimitive::<B>::Float(
                B::float_unary_model(FloatUnaryOp::Exp, self.primitive.float_value()),
            ),
            r.shape_spec() == self.shape_spec(),
    {
        self.unary_inner(FloatUnaryOp::Exp)
    }

    /// Applies the elementwise natural logarithm.
    pub fn log(self) -> (r: Self)
        ensures
            r.primitive == TensorPrimitive::<B>::Float(
                B::float_unary_model(FloatUnaryOp::Log, self.primitive.float_value()),
            ),
            r.shape_spec() == self.shape_spec(),
    {
        self.unary_inner(FloatUnaryOp::Log)
    }

    /// Applies the natural logarithm of one plus the input, elementwise.
    pub fn log1p(self) -> (r: Self)
        ensures
            r.primitive == TensorPrimitive::<B>::Float(
                B::float_unary_model(FloatUnaryOp::Log1p, self.primitive.float_value()),
            ),
            r.shape_spec() == self.shape_spec(),
    {
        self.unary_inner(FloatUnaryOp::Log1p)
    }

    /// Applies the error function elementwise.
    pub fn erf(self) -> (r: Self)
        ensures
            r.primitive == TensorPrimitive::<B>::Float(
                B::float_unary_model(FloatUnaryOp::Erf, self.primitive.float_value()),
            ),
            r.shape_spec() == self.shape_spec(),
    {
        self.unary_inner(FloatUnaryOp::Erf)
    }

    /// Applies the multiplicative inverse elementwise.
    pub fn recip(self) -> (r: Self)
        ensures
            r.primitive == TensorPrimitive::<B>::Float(
                B::float_unary_model(FloatUnaryOp::Recip, self.primitive.float_value()),
            ),
            r.shape_spec() == self.shape_spec(),
    {
        self.unary_inner(FloatUnaryOp::Recip)
    }

    /// Applies the square root elementwise.
    pub fn sqrt(self) -> (r: Self)
        ensures
            r.primitive == TensorPrimitive::<B>::Float(
                B::float_unary_model(FloatUnaryOp::Sqrt, self.primitive.float_value()),
            ),
            r.shape_spec() == self.shape_spec(),
    {
        self.unary_inner(FloatUnaryOp::Sqrt)
    }

    /// Applies the cosine elementwise.
    pub fn cos(self) -> (r: Self)
        ensures
            r.primitive == TensorPrimitive::<B>::Float(
                B::float_unary_model(FloatUnaryOp::Cos, self.primitive.float_value()),
            ),
            r.shape_spec() == self.shape_spec(),
    {
        self.unary_inner(FloatUnaryOp::Cos)
    }

    /// Applies the sine elementwise.
    pub fn sin(self) -> (r: Self)
        ensures
            r.primitive == TensorPrimitive::<B>::Float(
                B::float_unary_model(FloatUnaryOp::Sin, self.primitive.float_value()),
            ),
            r.shape_spec() == self.shape_spec(),
    {
        self.unary_inner(FloatUnaryOp::Sin)
    }

    /// Applies the tangent elementwise.
    pub fn tan(self) -> (r: Self)
        ensures
            r.primitive == TensorPrimitive::<B>::Float(
                B::float_unary_model(FloatUnaryOp::Tan, self.primitive.float_value()),
            ),
            r.shape_spec() == self.shape_spec(),
    {
        self.unary_inner(FloatUnaryOp::Tan)
    }

    /// Applies the hyperbolic cosine elementwise.
    pub fn cosh(self) -> (r: Self)
        ensures
            r.primitive == TensorPrimitive::<B>::Float(
                B::float_unary_model(FloatUnaryOp::Cosh, self.primitive.float_value()),
            ),
            r.shape_spec() == self.shape_spec(),
    {
        self.unary_inner(FloatUnaryOp::Cosh)
    }

    /// Applies the hyperbolic sine elementwise.
    pub fn sinh(self) -> (r: Self)
        ensures
            r.primitive == TensorPrimitive::<B>::Float(
                B::float_unary_model(FloatUnaryOp::Sinh, self.primitive.float_value()),
            ),
            r.shape_spec() == self.shape_spec(),
    {
        self.unary_inner(FloatUnaryOp::Sinh)
    }

    /// Applies the hyperbolic tangent elementwise.
    pub fn tanh(self) -> (r: Self)
        ensures
            r.primitive == TensorPrimitive::<B>::Float(
                B::float_unary_model(FloatUnaryOp::Tanh, self.primitive.float_value()),
            ),
            r.shape_spec() == self.shape_spec(),
    {
        self.unary_inner(FloatUnaryOp::Tanh)
    }

    /// Rounds elementwise, halfway cases to the nearest even value.
    pub fn round(self) -> (r: Self)
        ensures
            r.primitive == TensorPrimitive::<B>::Float(
                B::float_unary_model(FloatUnaryOp::Round, self.primitive.float_value()),
            ),
            r.shape_spec() == self.shape_spec(),
    {
        self.unary_inner(FloatUnaryOp::Round)
    }

    /// Applies the floor elementwise.
    pub fn floor(self) -> (r: Self)
        ensures
            r.primitive == TensorPrimitive::<B>::Float(
                B::float_unary_model(FloatUnaryOp::Floor, self.primitive.float_value()),
            ),
            r.shape_spec() == self.shape_spec(),
    {
        self.unary_inner(FloatUnaryOp::Floor)
    }

    /// Applies the ceiling elementwise.
    pub fn ceil(self) -> (r: Self)
        ensures
            r.primitive == TensorPrimitive::<B>::Float(
                B::float_unary_model(FloatUnaryOp::Ceil, self.primitive.float_value()),
            ),
            r.shape_spec() == self.shape_spec(),
    {
        self.unary_inner(FloatUnaryOp::Ceil)
    }

    /// Applies the rectified linear unit elementwise.
    pub fn relu(self) -> (r: Self)
        ensures
            r.primitive == TensorPrimitive::<B>::Float(
                B::float_unary_model(FloatUnaryOp::Relu, self.primitive.float_value()),
            ),
            r.shape_spec() == self.shape_spec(),
    {
        self.unary_inner(FloatUnaryOp::Relu)
    }

    /// Converts the tensor's data to integers, keeping shape and device.
    pub fn into_int(self) -> (r: IntTensor<B, D>)
        ensures
            r.primitive == B::float_into_int_model(self.primitive.float_value()),
            B::int_shape(&r.primitive) == self.shape_spec(),
    {
        IntTensor { primitive: B::float_into_int(self.primitive.tensor()) }
    }

    /// Detaches the tensor from the autodiff graph: the result is not
    /// tracked.
    pub fn detach(self) -> (r: Self)
        ensures
            r.primitive == TensorPrimitive::<B>::Float(
                B::float_detach_model(self.primitive.float_value()),
            ),
            r.shape_spec() == self.shape_spec(),
            !r.primitive.grad_spec(),
    {
        Self::new(TensorPrimitive::Float(B::float_detach(self.primitive.tensor())))
    }

    /// Marks the tensor as tracked or untracked for the backward pass,
    /// keeping its float or quantized representation.
    pub fn set_require_grad(self, require_grad: bool) -> (r: Self)
        ensures
            r.primitive == (match self.primitive {
                TensorPrimitive::Float(t) => TensorPrimitive::<B>::Float(
                    B::float_set_grad_model(t, require_grad),
                ),
                TensorPrimitive::QFloat(q) => TensorPrimitive::<B>::QFloat(
                    B::q_set_grad_model(q, require_grad),
                ),
            }),
            r.primitive.grad_spec() == require_grad,
            r.shape_spec() == self.shape_spec(),
    {
        let primitive = match self.primitive {
            TensorPrimitive::Float(t) => TensorPrimitive::Float(
                B::float_set_require_grad(t, require_grad),
            ),
            TensorPrimitive::QFloat(q) => TensorPrimitive::QFloat(
                B::q_set_require_grad(q, require_grad),
            ),
        };
        Self::new(primitive)
    }

    /// Marks the tensor to keep gradients during the backward pass.
    pub fn require_grad(self) -> (r: Self)
        ensures
            r.primitive == (match self.primitive {
                TensorPrimitive::Float(t) => TensorPrimitive::<B>::Float(
                    B::float_set_grad_model(t, true),
                ),
                TensorPrimitive::QFloat(q) => TensorPrimitive::<B>::QFloat(
                    B::q_set_grad_model(q, true),
                ),
            }),
            r.primitive.grad_spec(),
            r.shape_spec() == self.shape_spec(),
    {
        self.set_require_grad(true)
    }

    /// Whether the tensor is tracked for the backward pass.
    pub fn is_require_grad(&self) -> (r: bool)
        ensures
            r == self.primitive.grad_spec(),
    {
        match &self.primitive {
            TensorPrimitive::Float(tensor) => B::float_is_require_grad(tensor),
            TensorPrimitive::QFloat(tensor) => B::q_is_require_grad(tensor),
        }
    }

    /// Casts the tensor to the given floating-point precision.
    pub fn cast(self, dtype: FloatDType) -> (r: Tensor<B, D>)
        ensures
            r.primitive == TensorPrimitive::<B>::Float(
                B::float_cast_model(self.primitive.float_value(), dtype),
            ),
            r.shape_spec() == self.shape_spec(),
    {
        Tensor::new(TensorPrimitive::Float(B::float_cast(self.primitive.tensor(), dtype)))
    }

    /// Quantizes the tensor under the given scheme with pre-computed
    /// parameters.
    pub fn quantize(self, scheme: &QuantScheme, qparams: QuantizationParameters<B>) -> (r: Tensor<
        B,
        D,
    >)
        ensures
            r.primitive == TensorPrimitive::<B>::QFloat(
                B::quantize_model(
                    self.primitive.float_value(),
                    *scheme,
                    qparams.scales.primitive.float_value(),
                    match qparams.offsets {
                        Some(o) => Some(o.primitive),
                        None => None,
                    },
                ),
            ),
            r.shape_spec() == self.shape_spec(),
    {
        let offsets = match qparams.offsets {
            Some(o) => Some(o.primitive),
            None => None,
        };
        let prim = QuantizationParametersPrimitive {
            scales: qparams.scales.primitive.tensor(),
            offsets,
        };
        Tensor::new(TensorPrimitive::QFloat(B::quantize(self.primitive.tensor(), scheme, prim)))
    }

    /// Quantizes the tensor dynamically under the given scheme.
    pub fn quantize_dynamic(self, scheme: &QuantScheme) -> (r: Tensor<B, D>)
        ensures
            r.primitive == TensorPrimitive::<B>::QFloat(
                B::quantize_dynamic_model(self.primitive.float_value(), *scheme),
            ),
            r.shape_spec() == self.shape_spec(),
    {
        Tensor::new(
            TensorPrimitive::QFloat(B::quantize_dynamic(self.primitive.tensor(), scheme)),
        )
    }

    /// Converts the tensor back to a plain float tensor; a tensor that is
    /// not quantized is simply rewrapped.
    pub fn dequantize(self) -> (r: Tensor<B, D>)
        ensures
            r.primitive == TensorPrimitive::<B>::Float(self.primitive.float_value()),
            r.shape_spec() == self.shape_spec(),
    {
        Tensor::new(TensorPrimitive::Float(self.primitive.tensor()))
    }
}

} // verus!
