use burn_core::onnx::flatten_config;
use burn_core::onnx::infer_conv_kernel_shape;
use burn_core::onnx::shape_config;
use burn_core::onnx::ArgType;
use burn_core::onnx::Argument;
use burn_core::onnx::AttributeValue;
use burn_core::onnx::ElementType;
use burn_core::onnx::Node;
use burn_core::onnx::TensorType;

fn tensor_node(rank: usize, attrs: Vec<(&str, i64)>) -> Node {
    Node {
        inputs: vec![Argument {
            name: "input".to_owned(),
            ty: ArgType::Tensor(TensorType { elem_type: ElementType::Float32, rank, shape: None }),
        }],
        attrs: attrs
            .into_iter()
            .map(|(k, v)| (k.to_owned(), AttributeValue::Int64(v)))
            .collect(),
    }
}

#[test]
fn test_infer_conv_kernel_shape() {
    let tensor = TensorType {
        elem_type: ElementType::Float32,
        rank: 4,
        shape: Some(vec![16, 64, 3, 3]),
    };
    let shape = infer_conv_kernel_shape(&ArgType::Tensor(tensor));

    assert_eq!(shape, vec![3, 3])
}

#[test]
fn flatten_config_default_axis() {
    let node = tensor_node(4, vec![]);
    assert_eq!(flatten_config(&node), (1, 3));
}

#[test]
fn flatten_config_explicit_axis() {
    let node = tensor_node(4, vec![("axis", 2)]);
    assert_eq!(flatten_config(&node), (2, 3));
}

#[test]
fn flatten_config_negative_axis_counts_from_end() {
    let node = tensor_node(4, vec![("axis", -1)]);
    assert_eq!(flatten_config(&node), (3, 3));
}

#[test]
fn shape_config_defaults_to_whole_rank() {
    let node = tensor_node(3, vec![]);
    assert_eq!(shape_config(&node), (0, 3));
}

#[test]
fn shape_config_explicit_range() {
    let node = tensor_node(4, vec![("start", 1), ("end", 3)]);
    assert_eq!(shape_config(&node), (1, 3));
}

#[test]
fn shape_config_negative_bounds_count_from_end() {
    let node = tensor_node(4, vec![("start", -3), ("end", -1)]);
    assert_eq!(shape_config(&node), (1, 3));
}
