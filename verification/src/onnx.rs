//! Configuration helpers for graph-import nodes: extracting flatten and
//! shape ranges from a node's attributes, and reading a convolution kernel
//! shape off the weight tensor's type.

use vstd::prelude::*;

verus! {

/// The element type a graph tensor declares.
#[derive(Clone, Copy, PartialEq, Eq, Structural)]
pub enum ElementType {
    Float32,
    Float64,
    Float16,
    Int32,
    Int64,
    Bool,
}

/// The type of a graph tensor: its element type, rank, and, when known, its
/// static shape.
pub struct TensorType {
    pub elem_type: ElementType,
    pub rank: usize,
    pub shape: Option<Vec<usize>>,
}

/// The type of a node argument.
pub enum ArgType {
    Tensor(TensorType),
    Shape(usize),
    Scalar(ElementType),
}

/// A node argument: a named value of a given type.
pub struct Argument {
    pub name: String,
    pub ty: ArgType,
}

/// An attribute value attached to a node.
#[derive(Clone, Copy)]
pub enum AttributeValue {
    Int64(i64),
}

impl AttributeValue {
    /// The spec-level integer carried by the attribute.
    pub open spec fn int_spec(self) -> i64 {
        match self {
            AttributeValue::Int64(v) => v,
        }
    }

    pub fn into_i64(self) -> (r: i64)
        ensures
            r == self.int_spec(),
    {
        match self {
            AttributeValue::Int64(v) => v,
        }
    }
}

/// A graph node: its inputs and its named attributes, in declaration order.
pub struct Node {
    pub inputs: Vec<Argument>,
    pub attrs: Vec<(String, AttributeValue)>,
}

/// The value of the last attribute named `name`, or `dflt` if none is.
pub open spec fn attr_lookup(
    attrs: Seq<(String, AttributeValue)>,
    name: Seq<char>,
    dflt: i64,
) -> i64
    decreases attrs.len(),
{
    if attrs.len() == 0 {
        dflt
    } else if attrs.last().0@ == name {
        attrs.last().1.int_spec()
    } else {
        attr_lookup(attrs.drop_last(), name, dflt)
    }
}

/// Scans the attributes once, returning the last value under `name` or the
/// default.
#[verifier::loop_isolation(false)]
fn lookup_attr(attrs: &Vec<(String, AttributeValue)>, name: &str, dflt: i64) -> (r: i64)
    ensures
        r == attr_lookup(attrs@, name@, dflt),
{
    let needle: String = name.to_owned();
    let mut cur = dflt;
    let mut idx: usize = 0;
    proof {
        assert(attrs.len() == attrs@.len());
        assert(attrs@.take(0int) =~= Seq::<(String, AttributeValue)>::empty());
    }
    while idx < attrs.len()
        invariant
            idx <= attrs@.len(),
            cur == attr_lookup(attrs@.take(idx as int), name@, dflt),
        decreases attrs@.len() - idx,
    {
        proof {
            assert(attrs@.take(idx as int + 1).drop_last() =~= attrs@.take(idx as int));
            assert(attrs@.take(idx as int + 1).last() == attrs@[idx as int]);
        }
        if attrs[idx].0 == needle {
            cur = attrs[idx].1.into_i64();
        }
        idx = idx + 1;
    }
    proof {
        assert(attrs@.take(attrs@.len() as int) =~= attrs@);
    }
    cur
}

/// The rank of the tensor type of the node's single input, for nodes whose
/// contract demands a tensor there.
pub open spec fn input_rank(node: Node) -> int
    recommends
        node.inputs@.len() == 1,
        node.inputs@[0].ty is Tensor,
{
    match node.inputs@[0].ty {
        ArgType::Tensor(t) => t.rank as int,
        _ => 0,
    }
}

/// The start dimension a flatten node configures: its `axis` attribute
/// (default one), counted from the end when negative.
pub open spec fn flatten_start(node: Node) -> int {
    let a = attr_lookup(node.attrs@, "axis"@, 1) as int;
    if a < 0 {
        a + input_rank(node)
    } else {
        a
    }
}

/// Reads a flatten node's configuration: the start dimension from its
/// `axis` attribute (negative values count from the end) and the end
/// dimension, which is always the input tensor's last axis.
#[verifier::loop_isolation(false)]
pub fn flatten_config(curr: &Node) -> (r: (usize, usize))
    requires
        curr.inputs@.len() == 1,
        curr.inputs@[0].ty is Tensor,
        input_rank(*curr) >= 2,
        input_rank(*curr) <= i64::MAX,
        0 <= flatten_start(*curr) <= usize::MAX,
    ensures
        r.0 == flatten_start(*curr),
        r.1 == input_rank(*curr) - 1,
{
    let mut start_dim: i64 = 1;

    let tensor = match &curr.inputs[0].ty {
        ArgType::Tensor(tensor) => tensor,
        _ => {
            return (0, 0);
        },
    };

    let end_dim = tensor.rank - 1;

    start_dim = lookup_attr(&curr.attrs, "axis", start_dim);

    if start_dim < 0 {
        start_dim = start_dim + tensor.rank as i64;
    }

    (start_dim as usize, end_dim)
}

/// The start dimension a shape node configures: its `start` attribute
/// (default zero), counted from the end when negative.
pub open spec fn shape_start(node: Node) -> int {
    let a = attr_lookup(node.attrs@, "start"@, 0) as int;
    if a < 0 {
        a + input_rank(node)
    } else {
        a
    }
}

/// The end dimension a shape node configures: its `end` attribute (default
/// the input rank), counted from the end when negative.
pub open spec fn shape_end(node: Node) -> int {
    let a = attr_lookup(node.attrs@, "end"@, 0) as int;
    let dflt = input_rank(node);
    let chosen = if node_has_end(node) {
        a
    } else {
        dflt
    };
    if chosen < 0 {
        chosen + input_rank(node)
    } else {
        chosen
    }
}

/// Whether the node carries an `end` attribute at all.
pub open spec fn node_has_end(node: Node) -> bool {
    exists|k: int| 0 <= k < node.attrs@.len() && (#[trigger] node.attrs@[k]).0@ == "end"@
}

/// Reads a shape node's configuration: the half-open axis range from its
/// `start` and `end` attributes, each counted from the end when negative;
/// by default the whole rank.
#[verifier::loop_isolation(false)]
pub fn shape_config(curr: &Node) -> (r: (usize, usize))
    requires
        curr.inputs@.len() == 1,
        curr.inputs@[0].ty is Tensor,
        input_rank(*curr) >= 1,
        input_rank(*curr) <= i64::MAX,
        0 <= shape_start(*curr) <= usize::MAX,
        0 <= shape_end(*curr) <= usize::MAX,
    ensures
        r.0 == shape_start(*curr),
        r.1 == shape_end(*curr),
{
    let tensor = match &curr.inputs[0].ty {
        ArgType::Tensor(tensor) => tensor,
        _ => {
            return (0, 0);
        },
    };

    let mut start_dim: i64 = lookup_attr(&curr.attrs, "start", 0);
    let mut end_dim: i64 = if has_attr(&curr.attrs, "end") {
        lookup_attr(&curr.attrs, "end", 0)
    } else {
        tensor.rank as i64
    };

    if start_dim < 0 {
        start_dim = start_dim + tensor.rank as i64;
    }
    if end_dim < 0 {
        end_dim = end_dim + tensor.rank as i64;
    }

    (start_dim as usize, end_dim as usize)
}

/// Whether any attribute is named `name`.
#[verifier::loop_isolation(false)]
fn has_attr(attrs: &Vec<(String, AttributeValue)>, name: &str) -> (r: bool)
    ensures
        r == exists|k: int| 0 <= k < attrs@.len() && (#[trigger] attrs@[k]).0@ == name@,
{
    let needle: String = name.to_owned();
    let mut idx: usize = 0;
    proof {
        assert(attrs.len() == attrs@.len());
    }
    while idx < attrs.len()
        invariant
            idx <= attrs@.len(),
            forall|k: int| 0 <= k < idx ==> (#[trigger] attrs@[k]).0@ != name@,
        decreases attrs@.len() - idx,
    {
        if attrs[idx].0 == needle {
            return true;
        }
        idx = idx + 1;
    }
    false
}

/// Infers a convolution kernel's spatial shape from the weight tensor's
/// static shape: everything past the output- and input-channel axes.
#[verifier::loop_isolation(false)]
pub fn infer_conv_kernel_shape(w: &ArgType) -> (r: Vec<i64>)
    requires
        w is Tensor,
        w->Tensor_0.shape is Some,
        w->Tensor_0.shape->0@.len() >= 2,
        forall|k: int|
            0 <= k < w->Tensor_0.shape->0@.len() ==> #[trigger] w->Tensor_0.shape->0@[k]
                <= i64::MAX,
    ensures
        r@.len() == w->Tensor_0.shape->0@.len() - 2,
        forall|k: int| 0 <= k < r@.len() ==> #[trigger] r@[k] == w->Tensor_0.shape->0@[k + 2],
{
    let tensor = match w {
        ArgType::Tensor(tensor) => tensor,
        _ => {
            return Vec::new();
        },
    };
    let shape = match &tensor.shape {
        Some(s) => s,
        None => {
            return Vec::new();
        },
    };
    let mut out: Vec<i64> = Vec::new();
    let mut idx: usize = 2;
    proof {
        assert(shape.len() == shape@.len());
    }
    while idx < shape.len()
        invariant
            2 <= idx <= shape@.len(),
            shape@ == w->Tensor_0.shape->0@,
            out@.len() == idx - 2,
            forall|k: int| 0 <= k < out@.len() ==> #[trigger] out@[k] == shape@[k + 2],
        decreases shape@.len() - idx,
    {
        out.push(shape[idx] as i64);
        idx = idx + 1;
    }
    out
}

} // verus!
