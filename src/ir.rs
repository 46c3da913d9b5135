//! The intermediate representation: arguments, nodes and graphs, with their views.

use vstd::prelude::*;
use vstd::string::*;

verus! {

/// Element kind of a tensor, shape or scalar value.
#[derive(Debug, Clone, Copy, PartialEq, Eq, Hash, Structural)]
pub enum ElementType {
    Float32,
    Float64,
    Float16,
    Int32,
    Int64,
    String,
    Bool,
}

/// Type of a tensor: element kind, rank and, where known, its concrete shape.
#[derive(Debug, Clone)]
pub struct TensorType {
    pub elem_type: ElementType,
    pub dim: usize,
    pub shape: Option<Vec<usize>>,
}

/// Type of an argument.
#[derive(Debug, Clone)]
pub enum ArgType {
    Scalar(ElementType),
    Shape(usize),
    Tensor(TensorType),
}

/// A literal value. Floating point values are held as their IEEE-754 bit patterns.
#[derive(Debug, Clone)]
pub enum Data {
    Bool(bool),
    Bools(Vec<bool>),
    Float32(u32),
    Float32s(Vec<u32>),
    Int32(i32),
    Int32s(Vec<i32>),
    Int64(i64),
    Int64s(Vec<i64>),
    String(String),
    Strings(Vec<String>),
}

/// A named value flowing along an edge of the graph.
#[derive(Debug, Clone)]
pub struct Argument {
    pub name: String,
    pub ty: ArgType,
    pub value: Option<Data>,
    pub passed: bool,
}

/// A tensor held by an attribute: its shape and its values.
#[derive(Debug, Clone)]
pub struct TensorData {
    pub shape: Vec<usize>,
    pub data: Data,
}

/// The value of a node attribute.
#[derive(Debug, Clone)]
pub enum AttributeValue {
    Float32(u32),
    Float32s(Vec<u32>),
    Int64(i64),
    Int64s(Vec<i64>),
    String(String),
    Strings(Vec<String>),
    Tensor(TensorData),
}

/// Operator kinds.
#[derive(Debug, Clone, Copy, PartialEq, Eq, Hash, Structural)]
pub enum NodeType {
    Abs,
    Add,
    AveragePool2d,
    BatchNormalization,
    Cast,
    Clip,
    Concat,
    Constant,
    Conv1d,
    Conv2d,
    Cos,
    Div,
    Dropout,
    Equal,
    Erf,
    Exp,
    Flatten,
    Gather,
    Gelu,
    Gemm,
    GlobalAveragePool,
    Identity,
    LayerNormalization,
    Linear,
    Log,
    LogSoftmax,
    MatMul,
    MaxPool2d,
    Mul,
    Neg,
    Reciprocal,
    ReduceMean,
    Relu,
    Reshape,
    Sigmoid,
    Softmax,
    Sqrt,
    Sub,
    Sum,
    Tanh,
    Transpose,
    Unsqueeze,
}

/// One operator application.
#[derive(Debug, Clone)]
pub struct Node {
    pub node_type: NodeType,
    pub name: String,
    pub inputs: Vec<Argument>,
    pub outputs: Vec<Argument>,
    pub attrs: Vec<(String, AttributeValue)>,
}

/// The finished graph: its nodes in order, and the graph inputs and outputs in use.
#[derive(Debug, Clone)]
pub struct OnnxGraph {
    pub nodes: Vec<Node>,
    pub inputs: Vec<Argument>,
    pub outputs: Vec<Argument>,
}

// ---------------------------------------------------------------------------------------
// Views
// ---------------------------------------------------------------------------------------

pub ghost struct TensorTypeView {
    pub elem_type: ElementType,
    pub dim: usize,
    pub shape: Option<Seq<usize>>,
}

pub ghost enum ArgTypeView {
    Scalar(ElementType),
    Shape(usize),
    Tensor(TensorTypeView),
}

pub ghost enum DataView {
    Bool(bool),
    Bools(Seq<bool>),
    Float32(u32),
    Float32s(Seq<u32>),
    Int32(i32),
    Int32s(Seq<i32>),
    Int64(i64),
    Int64s(Seq<i64>),
    String(Seq<char>),
    Strings(Seq<Seq<char>>),
}

pub ghost struct ArgumentView {
    pub name: Seq<char>,
    pub ty: ArgTypeView,
    pub value: Option<DataView>,
    pub passed: bool,
}

pub ghost enum AttributeValueView {
    Float32(u32),
    Float32s(Seq<u32>),
    Int64(i64),
    Int64s(Seq<i64>),
    String(Seq<char>),
    Strings(Seq<Seq<char>>),
    Tensor(Seq<usize>, DataView),
}

pub ghost struct NodeView {
    pub node_type: NodeType,
    pub name: Seq<char>,
    pub inputs: Seq<ArgumentView>,
    pub outputs: Seq<ArgumentView>,
    pub attrs: Seq<(Seq<char>, AttributeValueView)>,
}

impl View for TensorType {
    type V = TensorTypeView;

    open spec fn view(&self) -> TensorTypeView {
        TensorTypeView {
            elem_type: self.elem_type,
            dim: self.dim,
            shape: match self.shape {
                Some(s) => Some(s@),
                None => None,
            },
        }
    }
}

impl View for ArgType {
    type V = ArgTypeView;

    open spec fn view(&self) -> ArgTypeView {
        match self {
            ArgType::Scalar(e) => ArgTypeView::Scalar(*e),
            ArgType::Shape(n) => ArgTypeView::Shape(*n),
            ArgType::Tensor(t) => ArgTypeView::Tensor(t@),
        }
    }
}

impl View for Data {
    type V = DataView;

    open spec fn view(&self) -> DataView {
        match self {
            Data::Bool(b) => DataView::Bool(*b),
            Data::Bools(v) => DataView::Bools(v@),
            Data::Float32(b) => DataView::Float32(*b),
            Data::Float32s(v) => DataView::Float32s(v@),
            Data::Int32(x) => DataView::Int32(*x),
            Data::Int32s(v) => DataView::Int32s(v@),
            Data::Int64(x) => DataView::Int64(*x),
            Data::Int64s(v) => DataView::Int64s(v@),
            Data::String(s) => DataView::String(s@),
            Data::Strings(v) => DataView::Strings(v.deep_view()),
        }
    }
}

/// View of an optional literal value.
pub open spec fn opt_data_view(v: Option<Data>) -> Option<DataView> {
    match v {
        Some(d) => Some(d@),
        None => None,
    }
}

impl View for Argument {
    type V = ArgumentView;

    open spec fn view(&self) -> ArgumentView {
        ArgumentView {
            name: self.name@,
            ty: self.ty@,
            value: opt_data_view(self.value),
            passed: self.passed,
        }
    }
}

impl View for AttributeValue {
    type V = AttributeValueView;

    open spec fn view(&self) -> AttributeValueView {
        match self {
            AttributeValue::Float32(b) => AttributeValueView::Float32(*b),
            AttributeValue::Float32s(v) => AttributeValueView::Float32s(v@),
            AttributeValue::Int64(x) => AttributeValueView::Int64(*x),
            AttributeValue::Int64s(v) => AttributeValueView::Int64s(v@),
            AttributeValue::String(s) => AttributeValueView::String(s@),
            AttributeValue::Strings(v) => AttributeValueView::Strings(v.deep_view()),
            AttributeValue::Tensor(t) => AttributeValueView::Tensor(t.shape@, t.data@),
        }
    }
}

/// View of a sequence of arguments.
pub open spec fn args_view(s: Seq<Argument>) -> Seq<ArgumentView> {
    s.map_values(|a: Argument| a@)
}

/// View of a sequence of attributes.
pub open spec fn attrs_view(s: Seq<(String, AttributeValue)>) -> Seq<(Seq<char>, AttributeValueView)> {
    s.map_values(|p: (String, AttributeValue)| (p.0@, p.1@))
}

impl View for Node {
    type V = NodeView;

    open spec fn view(&self) -> NodeView {
        NodeView {
            node_type: self.node_type,
            name: self.name@,
            inputs: args_view(self.inputs@),
            outputs: args_view(self.outputs@),
            attrs: attrs_view(self.attrs@),
        }
    }
}

// ---------------------------------------------------------------------------------------
// Copies that keep the view
// ---------------------------------------------------------------------------------------

impl TensorType {
    /// A copy with the same view.
    pub fn duplicate(&self) -> (r: TensorType)
        ensures
            r@ == self@,
    {
        let shape = match &self.shape {
            Some(s) => Some(s.clone()),
            None => None,
        };
        TensorType { elem_type: self.elem_type, dim: self.dim, shape }
    }
}

impl ArgType {
    /// A copy with the same view.
    pub fn duplicate(&self) -> (r: ArgType)
        ensures
            r@ == self@,
    {
        match self {
            ArgType::Scalar(e) => ArgType::Scalar(*e),
            ArgType::Shape(n) => ArgType::Shape(*n),
            ArgType::Tensor(t) => ArgType::Tensor(t.duplicate()),
        }
    }
}

impl Data {
    /// A copy with the same view.
    pub fn duplicate(&self) -> (r: Data)
        ensures
            r@ == self@,
    {
        match self {
            Data::Bool(b) => Data::Bool(*b),
            Data::Bools(v) => Data::Bools(v.clone()),
            Data::Float32(b) => Data::Float32(*b),
            Data::Float32s(v) => Data::Float32s(v.clone()),
            Data::Int32(x) => Data::Int32(*x),
            Data::Int32s(v) => Data::Int32s(v.clone()),
            Data::Int64(x) => Data::Int64(*x),
            Data::Int64s(v) => Data::Int64s(v.clone()),
            Data::String(s) => Data::String(s.clone()),
            Data::Strings(v) => Data::Strings(v.clone()),
        }
    }

    /// The element kind of a literal value.
    pub open spec fn spec_elem_type(&self) -> ElementType {
        match self {
            Data::Bool(_) | Data::Bools(_) => ElementType::Bool,
            Data::Float32(_) | Data::Float32s(_) => ElementType::Float32,
            Data::Int32(_) | Data::Int32s(_) => ElementType::Int32,
            Data::Int64(_) | Data::Int64s(_) => ElementType::Int64,
            Data::String(_) | Data::Strings(_) => ElementType::String,
        }
    }

    /// The element kind of a literal value.
    pub fn elem_type(&self) -> (r: ElementType)
        ensures
            r == self.spec_elem_type(),
    {
        match self {
            Data::Bool(_) | Data::Bools(_) => ElementType::Bool,
            Data::Float32(_) | Data::Float32s(_) => ElementType::Float32,
            Data::Int32(_) | Data::Int32s(_) => ElementType::Int32,
            Data::Int64(_) | Data::Int64s(_) => ElementType::Int64,
            Data::String(_) | Data::Strings(_) => ElementType::String,
        }
    }
}

/// A copy of an optional literal value, with the same view.
pub fn duplicate_value(v: &Option<Data>) -> (r: Option<Data>)
    ensures
        opt_data_view(r) == opt_data_view(*v),
{
    match v {
        Some(d) => Some(d.duplicate()),
        None => None,
    }
}

impl Argument {
    /// A fresh argument of the given name: a float tensor of rank 0, no value, not passed.
    pub fn new(name: String) -> (r: Argument)
        ensures
            r@ == (ArgumentView {
                name: name@,
                ty: ArgTypeView::Tensor(
                    TensorTypeView { elem_type: ElementType::Float32, dim: 0, shape: None },
                ),
                value: None,
                passed: false,
            }),
    {
        Argument {
            name,
            ty: ArgType::Tensor(TensorType { elem_type: ElementType::Float32, dim: 0, shape: None }),
            value: None,
            passed: false,
        }
    }

    /// A copy with the same view.
    pub fn duplicate(&self) -> (r: Argument)
        ensures
            r@ == self@,
    {
        Argument {
            name: self.name.clone(),
            ty: self.ty.duplicate(),
            value: duplicate_value(&self.value),
            passed: self.passed,
        }
    }

    /// Copies the type and the literal value of `source`; name and passed flag stay.
    pub fn copy_value(&mut self, source: &Argument)
        ensures
            final(self)@ == (ArgumentView {
                ty: source@.ty,
                value: source@.value,
                ..old(self)@
            }),
    {
        self.ty = source.ty.duplicate();
        self.value = duplicate_value(&source.value);
    }

    /// The argument that holds the value of a constant attribute: unnamed, not passed.
    pub fn from_attribute(value: &AttributeValue) -> (r: Argument)
        ensures
            r@ == argument_of_attribute(value@),
    {
        let (ty, data) = match value {
            AttributeValue::Float32(b) => (ArgType::Scalar(ElementType::Float32), Data::Float32(*b)),
            AttributeValue::Float32s(v) => {
                let shape = vec![v.len()];
                assert(shape@ =~= seq![v@.len() as usize]);
                (
                    ArgType::Tensor(TensorType { elem_type: ElementType::Float32, dim: 1, shape: Some(shape) }),
                    Data::Float32s(v.clone()),
                )
            },
            AttributeValue::Int64(x) => (ArgType::Scalar(ElementType::Int64), Data::Int64(*x)),
            AttributeValue::Int64s(v) => {
                let shape = vec![v.len()];
                assert(shape@ =~= seq![v@.len() as usize]);
                (
                    ArgType::Tensor(TensorType { elem_type: ElementType::Int64, dim: 1, shape: Some(shape) }),
                    Data::Int64s(v.clone()),
                )
            },
            AttributeValue::String(s) => (ArgType::Scalar(ElementType::String), Data::String(s.clone())),
            AttributeValue::Strings(v) => {
                let shape = vec![v.len()];
                assert(shape@ =~= seq![v@.len() as usize]);
                (
                    ArgType::Tensor(TensorType { elem_type: ElementType::String, dim: 1, shape: Some(shape) }),
                    Data::Strings(v.clone()),
                )
            },
            AttributeValue::Tensor(t) => {
                let elem_type = t.data.elem_type();
                if t.shape.len() == 0 {
                    (ArgType::Scalar(elem_type), t.data.duplicate())
                } else {
                    (
                        ArgType::Tensor(TensorType {
                            elem_type,
                            dim: t.shape.len(),
                            shape: Some(t.shape.clone()),
                        }),
                        t.data.duplicate(),
                    )
                }
            },
        };
        Argument { name: String::new(), ty, value: Some(data), passed: false }
    }
}

/// Type of a one-dimensional tensor of `n` elements of the given kind.
pub open spec fn vector_type(e: ElementType, n: nat) -> ArgTypeView {
    ArgTypeView::Tensor(TensorTypeView { elem_type: e, dim: 1, shape: Some(seq![n as usize]) })
}

/// The element kind of a literal value's view.
pub open spec fn data_elem_type(d: DataView) -> ElementType {
    match d {
        DataView::Bool(_) | DataView::Bools(_) => ElementType::Bool,
        DataView::Float32(_) | DataView::Float32s(_) => ElementType::Float32,
        DataView::Int32(_) | DataView::Int32s(_) => ElementType::Int32,
        DataView::Int64(_) | DataView::Int64s(_) => ElementType::Int64,
        DataView::String(_) | DataView::Strings(_) => ElementType::String,
    }
}

/// The argument that holds the value of a constant attribute.
pub open spec fn argument_of_attribute(a: AttributeValueView) -> ArgumentView {
    let (ty, value) = match a {
        AttributeValueView::Float32(b) => (
            ArgTypeView::Scalar(ElementType::Float32),
            DataView::Float32(b),
        ),
        AttributeValueView::Float32s(v) => (
            vector_type(ElementType::Float32, v.len()),
            DataView::Float32s(v),
        ),
        AttributeValueView::Int64(x) => (ArgTypeView::Scalar(ElementType::Int64), DataView::Int64(x)),
        AttributeValueView::Int64s(v) => (
            vector_type(ElementType::Int64, v.len()),
            DataView::Int64s(v),
        ),
        AttributeValueView::String(s) => (
            ArgTypeView::Scalar(ElementType::String),
            DataView::String(s),
        ),
        AttributeValueView::Strings(v) => (
            vector_type(ElementType::String, v.len()),
            DataView::Strings(v),
        ),
        AttributeValueView::Tensor(shape, d) => if shape.len() == 0 {
            (ArgTypeView::Scalar(data_elem_type(d)), d)
        } else {
            (
                ArgTypeView::Tensor(
                    TensorTypeView {
                        elem_type: data_elem_type(d),
                        dim: shape.len() as usize,
                        shape: Some(shape),
                    },
                ),
                d,
            )
        },
    };
    ArgumentView { name: Seq::empty(), ty, value: Some(value), passed: false }
}

// ---------------------------------------------------------------------------------------
// Operator kinds
// ---------------------------------------------------------------------------------------

/// The lower-case tag of an operator kind, used to name nodes.
pub open spec fn node_type_tag(t: NodeType) -> Seq<char> {
    match t {
        NodeType::Abs => "abs"@,
        NodeType::Add => "add"@,
        NodeType::AveragePool2d => "averagepool2d"@,
        NodeType::BatchNormalization => "batchnormalization"@,
        NodeType::Cast => "cast"@,
        NodeType::Clip => "clip"@,
        NodeType::Concat => "concat"@,
        NodeType::Constant => "constant"@,
        NodeType::Conv1d => "conv1d"@,
        NodeType::Conv2d => "conv2d"@,
        NodeType::Cos => "cos"@,
        NodeType::Div => "div"@,
        NodeType::Dropout => "dropout"@,
        NodeType::Equal => "equal"@,
        NodeType::Erf => "erf"@,
        NodeType::Exp => "exp"@,
        NodeType::Flatten => "flatten"@,
        NodeType::Gather => "gather"@,
        NodeType::Gelu => "gelu"@,
        NodeType::Gemm => "gemm"@,
        NodeType::GlobalAveragePool => "globalaveragepool"@,
        NodeType::Identity => "identity"@,
        NodeType::LayerNormalization => "layernormalization"@,
        NodeType::Linear => "linear"@,
        NodeType::Log => "log"@,
        NodeType::LogSoftmax => "logsoftmax"@,
        NodeType::MatMul => "matmul"@,
        NodeType::MaxPool2d => "maxpool2d"@,
        NodeType::Mul => "mul"@,
        NodeType::Neg => "neg"@,
        NodeType::Reciprocal => "reciprocal"@,
        NodeType::ReduceMean => "reducemean"@,
        NodeType::Relu => "relu"@,
        NodeType::Reshape => "reshape"@,
        NodeType::Sigmoid => "sigmoid"@,
        NodeType::Softmax => "softmax"@,
        NodeType::Sqrt => "sqrt"@,
        NodeType::Sub => "sub"@,
        NodeType::Sum => "sum"@,
        NodeType::Tanh => "tanh"@,
        NodeType::Transpose => "transpose"@,
        NodeType::Unsqueeze => "unsqueeze"@,
    }
}

/// Number of operator kinds.
pub const NODE_TYPE_COUNT: usize = 42;

/// Position of an operator kind in the declaration order.
pub open spec fn node_type_index(t: NodeType) -> nat {
    match t {
        NodeType::Abs => 0,
        NodeType::Add => 1,
        NodeType::AveragePool2d => 2,
        NodeType::BatchNormalization => 3,
        NodeType::Cast => 4,
        NodeType::Clip => 5,
        NodeType::Concat => 6,
        NodeType::Constant => 7,
        NodeType::Conv1d => 8,
        NodeType::Conv2d => 9,
        NodeType::Cos => 10,
        NodeType::Div => 11,
        NodeType::Dropout => 12,
        NodeType::Equal => 13,
        NodeType::Erf => 14,
        NodeType::Exp => 15,
        NodeType::Flatten => 16,
        NodeType::Gather => 17,
        NodeType::Gelu => 18,
        NodeType::Gemm => 19,
        NodeType::GlobalAveragePool => 20,
        NodeType::Identity => 21,
        NodeType::LayerNormalization => 22,
        NodeType::Linear => 23,
        NodeType::Log => 24,
        NodeType::LogSoftmax => 25,
        NodeType::MatMul => 26,
        NodeType::MaxPool2d => 27,
        NodeType::Mul => 28,
        NodeType::Neg => 29,
        NodeType::Reciprocal => 30,
        NodeType::ReduceMean => 31,
        NodeType::Relu => 32,
        NodeType::Reshape => 33,
        NodeType::Sigmoid => 34,
        NodeType::Softmax => 35,
        NodeType::Sqrt => 36,
        NodeType::Sub => 37,
        NodeType::Sum => 38,
        NodeType::Tanh => 39,
        NodeType::Transpose => 40,
        NodeType::Unsqueeze => 41,
    }
}

/// Operator kinds whose operands after the first are lifted from constant nodes.
pub open spec fn lifts_constants(t: NodeType) -> bool {
    t is BatchNormalization || t is Clip || t is Conv1d || t is Conv2d || t is Dropout
        || t is Reshape || t is Unsqueeze
}

impl NodeType {
    /// The lower-case tag of the operator kind.
    pub fn tag(&self) -> (r: &'static str)
        ensures
            r@ == node_type_tag(*self),
    {
        match self {
            NodeType::Abs => "abs",
            NodeType::Add => "add",
            NodeType::AveragePool2d => "averagepool2d",
            NodeType::BatchNormalization => "batchnormalization",
            NodeType::Cast => "cast",
            NodeType::Clip => "clip",
            NodeType::Concat => "concat",
            NodeType::Constant => "constant",
            NodeType::Conv1d => "conv1d",
            NodeType::Conv2d => "conv2d",
            NodeType::Cos => "cos",
            NodeType::Div => "div",
            NodeType::Dropout => "dropout",
            NodeType::Equal => "equal",
            NodeType::Erf => "erf",
            NodeType::Exp => "exp",
            NodeType::Flatten => "flatten",
            NodeType::Gather => "gather",
            NodeType::Gelu => "gelu",
            NodeType::Gemm => "gemm",
            NodeType::GlobalAveragePool => "globalaveragepool",
            NodeType::Identity => "identity",
            NodeType::LayerNormalization => "layernormalization",
            NodeType::Linear => "linear",
            NodeType::Log => "log",
            NodeType::LogSoftmax => "logsoftmax",
            NodeType::MatMul => "matmul",
            NodeType::MaxPool2d => "maxpool2d",
            NodeType::Mul => "mul",
            NodeType::Neg => "neg",
            NodeType::Reciprocal => "reciprocal",
            NodeType::ReduceMean => "reducemean",
            NodeType::Relu => "relu",
            NodeType::Reshape => "reshape",
            NodeType::Sigmoid => "sigmoid",
            NodeType::Softmax => "softmax",
            NodeType::Sqrt => "sqrt",
            NodeType::Sub => "sub",
            NodeType::Sum => "sum",
            NodeType::Tanh => "tanh",
            NodeType::Transpose => "transpose",
            NodeType::Unsqueeze => "unsqueeze",
        }
    }

    /// Position of the operator kind in the declaration order.
    pub fn index(&self) -> (r: usize)
        ensures
            r == node_type_index(*self),
            r < NODE_TYPE_COUNT,
    {
        match self {
            NodeType::Abs => 0,
            NodeType::Add => 1,
            NodeType::AveragePool2d => 2,
            NodeType::BatchNormalization => 3,
            NodeType::Cast => 4,
            NodeType::Clip => 5,
            NodeType::Concat => 6,
            NodeType::Constant => 7,
            NodeType::Conv1d => 8,
            NodeType::Conv2d => 9,
            NodeType::Cos => 10,
            NodeType::Div => 11,
            NodeType::Dropout => 12,
            NodeType::Equal => 13,
            NodeType::Erf => 14,
            NodeType::Exp => 15,
            NodeType::Flatten => 16,
            NodeType::Gather => 17,
            NodeType::Gelu => 18,
            NodeType::Gemm => 19,
            NodeType::GlobalAveragePool => 20,
            NodeType::Identity => 21,
            NodeType::LayerNormalization => 22,
            NodeType::Linear => 23,
            NodeType::Log => 24,
            NodeType::LogSoftmax => 25,
            NodeType::MatMul => 26,
            NodeType::MaxPool2d => 27,
            NodeType::Mul => 28,
            NodeType::Neg => 29,
            NodeType::Reciprocal => 30,
            NodeType::ReduceMean => 31,
            NodeType::Relu => 32,
            NodeType::Reshape => 33,
            NodeType::Sigmoid => 34,
            NodeType::Softmax => 35,
            NodeType::Sqrt => 36,
            NodeType::Sub => 37,
            NodeType::Sum => 38,
            NodeType::Tanh => 39,
            NodeType::Transpose => 40,
            NodeType::Unsqueeze => 41,
        }
    }

    /// Whether operands after the first are lifted from constant nodes.
    pub fn lifts_constants(&self) -> (r: bool)
        ensures
            r == lifts_constants(*self),
    {
        match self {
            NodeType::BatchNormalization | NodeType::Clip | NodeType::Conv1d | NodeType::Conv2d
            | NodeType::Dropout | NodeType::Reshape | NodeType::Unsqueeze => true,
            _ => false,
        }
    }
}

// ---------------------------------------------------------------------------------------
// Decimal numbers in names
// ---------------------------------------------------------------------------------------

/// The decimal digit `d` as a string.
pub open spec fn digit_chars(d: nat) -> Seq<char> {
    if d == 0 { "0"@ }
    else if d == 1 { "1"@ }
    else if d == 2 { "2"@ }
    else if d == 3 { "3"@ }
    else if d == 4 { "4"@ }
    else if d == 5 { "5"@ }
    else if d == 6 { "6"@ }
    else if d == 7 { "7"@ }
    else if d == 8 { "8"@ }
    else { "9"@ }
}

/// The decimal representation of `n`, without leading zeros.
pub open spec fn decimal(n: nat) -> Seq<char>
    decreases n,
{
    if n < 10 {
        digit_chars(n)
    } else {
        decimal(n / 10) + digit_chars(n % 10)
    }
}

fn digit_str(d: usize) -> (r: &'static str)
    requires
        d < 10,
    ensures
        r@ == digit_chars(d as nat),
{
    if d == 0 { "0" }
    else if d == 1 { "1" }
    else if d == 2 { "2" }
    else if d == 3 { "3" }
    else if d == 4 { "4" }
    else if d == 5 { "5" }
    else if d == 6 { "6" }
    else if d == 7 { "7" }
    else if d == 8 { "8" }
    else { "9" }
}

/// Appends the decimal representation of `n` to `s`.
pub fn push_decimal(s: &mut String, n: usize)
    ensures
        final(s)@ == old(s)@ + decimal(n as nat),
    decreases n,
{
    if n < 10 {
        s.append(digit_str(n));
    } else {
        push_decimal(s, n / 10);
        s.append(digit_str(n % 10));
        proof {
            assert(final(s)@ =~= old(s)@ + decimal(n as nat));
        }
    }
}

/// `prefix` followed by the decimal representation of `n`.
pub fn concat_decimal(prefix: &str, n: usize) -> (r: String)
    ensures
        r@ == prefix@ + decimal(n as nat),
{
    let mut s = String::from_str(prefix);
    push_decimal(&mut s, n);
    s
}

} // verus!
