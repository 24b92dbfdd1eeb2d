use burn_core::backend::FloatDType;
use burn_core::backend::QuantLevel;
use burn_core::backend::QuantMode;
use burn_core::backend::QuantScheme;
use burn_core::reference::MetaTensor;
use burn_core::reference::QuantMetaTensor;
use burn_core::reference::ReferenceBackend;
use burn_core::tensor::QuantizationParameters;
use burn_core::Tensor;
use burn_core::TensorPrimitive;

fn float_tensor(shape: Vec<usize>) -> Tensor<ReferenceBackend, 2> {
    Tensor::new(TensorPrimitive::Float(MetaTensor { shape, requires_grad: false }))
}

fn shape_of(t: Tensor<ReferenceBackend, 2>) -> Vec<usize> {
    match t.into_primitive() {
        TensorPrimitive::Float(m) => m.shape,
        TensorPrimitive::QFloat(q) => q.shape,
    }
}

#[test]
fn unary_ops_preserve_shape_and_variant() {
    let shape = vec![2usize, 3usize];
    let ops: Vec<fn(Tensor<ReferenceBackend, 2>) -> Tensor<ReferenceBackend, 2>> = vec![
        |t| t.exp(),
        |t| t.log(),
        |t| t.log1p(),
        |t| t.erf(),
        |t| t.recip(),
        |t| t.sqrt(),
        |t| t.cos(),
        |t| t.sin(),
        |t| t.tan(),
        |t| t.cosh(),
        |t| t.sinh(),
        |t| t.tanh(),
        |t| t.round(),
        |t| t.floor(),
        |t| t.ceil(),
        |t| t.relu(),
    ];
    for op in ops {
        let t = float_tensor(shape.clone());
        let r = op(t);
        assert!(matches!(&r.primitive, TensorPrimitive::Float(_)));
        assert_eq!(shape_of(r), shape);
    }
}

#[test]
fn require_grad_round_trip() {
    let t = float_tensor(vec![4, 4]);
    assert!(!t.is_require_grad());
    let t = t.require_grad();
    assert!(t.is_require_grad());
    let t = t.set_require_grad(false);
    assert!(!t.is_require_grad());
}

#[test]
fn detach_clears_tracking() {
    let t = float_tensor(vec![1, 8]).require_grad();
    let t = t.detach();
    assert!(!t.is_require_grad());
    assert_eq!(shape_of(t), vec![1, 8]);
}

#[test]
fn into_int_keeps_shape() {
    let t = float_tensor(vec![5, 2]);
    let i = t.into_int();
    assert_eq!(i.primitive.shape, vec![5, 2]);
}

#[test]
fn cast_keeps_shape() {
    let t = float_tensor(vec![3, 3]);
    let r = t.cast(FloatDType::F16);
    assert!(matches!(&r.primitive, TensorPrimitive::Float(_)));
    assert_eq!(shape_of(r), vec![3, 3]);
}

#[test]
fn quantize_dynamic_and_dequantize() {
    let scheme = QuantScheme { level: QuantLevel::Tensor, mode: QuantMode::Symmetric };
    let t = float_tensor(vec![2, 2]);
    let q = t.quantize_dynamic(&scheme);
    assert!(matches!(&q.primitive, TensorPrimitive::QFloat(_)));
    assert_eq!(shape_of(q), vec![2, 2]);
}

#[test]
fn quantize_with_parameters() {
    let scheme = QuantScheme { level: QuantLevel::Tensor, mode: QuantMode::Symmetric };
    let t = float_tensor(vec![2, 6]);
    let qparams: QuantizationParameters<ReferenceBackend> = QuantizationParameters {
        scales: Tensor::new(TensorPrimitive::Float(MetaTensor {
            shape: vec![1],
            requires_grad: false,
        })),
        offsets: None,
    };
    let q = t.quantize(&scheme, qparams);
    assert!(matches!(&q.primitive, TensorPrimitive::QFloat(_)));
    assert_eq!(shape_of(q), vec![2, 6]);
}

#[test]
fn dequantize_unwraps_to_float() {
    let q: Tensor<ReferenceBackend, 2> = Tensor::new(TensorPrimitive::QFloat(QuantMetaTensor {
        shape: vec![7, 1],
        requires_grad: true,
    }));
    let t = q.dequantize();
    assert!(matches!(&t.primitive, TensorPrimitive::Float(_)));
    assert_eq!(shape_of(t), vec![7, 1]);
}
