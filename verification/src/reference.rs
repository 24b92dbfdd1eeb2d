//! A shape-level backend: its primitives carry exactly the metadata the
//! contracts speak about — the shape and the autodiff tracking flag — and
//! every elementwise operation is modelled as leaving the values' metadata
//! in place. It discharges the backend trait's obligations inside the crate
//! and gives the tests a backend to run the tensor API against.

use vstd::prelude::*;

use crate::backend::Backend;
use crate::backend::FloatDType;
use crate::backend::FloatUnaryOp;
use crate::backend::QuantScheme;
use crate::backend::QuantizationParametersPrimitive;

verus! {

/// A float tensor reduced to its metadata.
pub struct MetaTensor {
    pub shape: Vec<usize>,
    pub requires_grad: bool,
}

/// An integer tensor reduced to its metadata.
pub struct IntMetaTensor {
    pub shape: Vec<usize>,
}

/// A quantized tensor reduced to its metadata.
pub struct QuantMetaTensor {
    pub shape: Vec<usize>,
    pub requires_grad: bool,
}

/// The shape-level backend.
pub struct ReferenceBackend;

impl Backend for ReferenceBackend {
    type FloatTensorPrimitive = MetaTensor;

    type IntTensorPrimitive = IntMetaTensor;

    type QuantizedTensorPrimitive = QuantMetaTensor;

    open spec fn float_shape(t: &MetaTensor) -> Seq<usize> {
        t.shape@
    }

    open spec fn int_shape(t: &IntMetaTensor) -> Seq<usize> {
        t.shape@
    }

    open spec fn quant_shape(t: &QuantMetaTensor) -> Seq<usize> {
        t.shape@
    }

    open spec fn float_requires_grad(t: &MetaTensor) -> bool {
        t.requires_grad
    }

    open spec fn quant_requires_grad(t: &QuantMetaTensor) -> bool {
        t.requires_grad
    }

    open spec fn float_unary_model(op: FloatUnaryOp, t: MetaTensor) -> MetaTensor {
        t
    }

    open spec fn float_into_int_model(t: MetaTensor) -> IntMetaTensor {
        IntMetaTensor { shape: t.shape }
    }

    open spec fn float_detach_model(t: MetaTensor) -> MetaTensor {
        MetaTensor { shape: t.shape, requires_grad: false }
    }

    open spec fn float_set_grad_model(t: MetaTensor, require_grad: bool) -> MetaTensor {
        MetaTensor { shape: t.shape, requires_grad: require_grad }
    }

    open spec fn q_set_grad_model(t: QuantMetaTensor, require_grad: bool) -> QuantMetaTensor {
        QuantMetaTensor { shape: t.shape, requires_grad: require_grad }
    }

    open spec fn float_cast_model(t: MetaTensor, dtype: FloatDType) -> MetaTensor {
        t
    }

    open spec fn quantize_model(
        t: MetaTensor,
        scheme: QuantScheme,
        scales: MetaTensor,
        offsets: Option<IntMetaTensor>,
    ) -> QuantMetaTensor {
        QuantMetaTensor { shape: t.shape, requires_grad: t.requires_grad }
    }

    open spec fn quantize_dynamic_model(t: MetaTensor, scheme: QuantScheme) -> QuantMetaTensor {
        QuantMetaTensor { shape: t.shape, requires_grad: t.requires_grad }
    }

    open spec fn dequantize_model(t: QuantMetaTensor) -> MetaTensor {
        MetaTensor { shape: t.shape, requires_grad: t.requires_grad }
    }

    fn float_unary(op: FloatUnaryOp, t: MetaTensor) -> MetaTensor {
        t
    }

    fn float_into_int(t: MetaTensor) -> IntMetaTensor {
        IntMetaTensor { shape: t.shape }
    }

    fn float_detach(t: MetaTensor) -> MetaTensor {
        MetaTensor { shape: t.shape, requires_grad: false }
    }

    fn float_set_require_grad(t: MetaTensor, require_grad: bool) -> MetaTensor {
        MetaTensor { shape: t.shape, requires_grad: require_grad }
    }

    fn float_is_require_grad(t: &MetaTensor) -> bool {
        t.requires_grad
    }

    fn q_set_require_grad(t: QuantMetaTensor, require_grad: bool) -> QuantMetaTensor {
        QuantMetaTensor { shape: t.shape, requires_grad: require_grad }
    }

    fn q_is_require_grad(t: &QuantMetaTensor) -> bool {
        t.requires_grad
    }

    fn float_cast(t: MetaTensor, dtype: FloatDType) -> MetaTensor {
        t
    }

    fn quantize(
        t: MetaTensor,
        scheme: &QuantScheme,
        qparams: QuantizationParametersPrimitive<ReferenceBackend>,
    ) -> QuantMetaTensor {
        QuantMetaTensor { shape: t.shape, requires_grad: t.requires_grad }
    }

    fn quantize_dynamic(t: MetaTensor, scheme: &QuantScheme) -> QuantMetaTensor {
        QuantMetaTensor { shape: t.shape, requires_grad: t.requires_grad }
    }

    fn dequantize(t: QuantMetaTensor) -> MetaTensor {
        MetaTensor { shape: t.shape, requires_grad: t.requires_grad }
    }
}

} // verus!
