//! The graph builder: turns the nodes of a decoded model into the final graph, one node
//! at a time and in file order.

use vstd::prelude::*;
use vstd::string::*;
use crate::graph_io::{
    entry_of, find_named, initializer_of, input_name, ins_declared, names_of, outs_declared,
    renamed, with_value_of, GraphIOView, IOEntry, OnnxGraphIO,
};
use crate::ir::{
    args_view, concat_decimal, decimal, push_decimal, lifts_constants, node_type_tag,
    node_type_index, vector_type, ArgType, ArgTypeView, Argument, ArgumentView, AttributeValue,
    AttributeValueView, Data, DataView, ElementType, Node, NodeType, NodeView, OnnxGraph,
    TensorType, NODE_TYPE_COUNT,
};
use crate::name_map::{last_match, NameMap};

verus! {

/// A node as decoded from the file, with its operator kind already mapped from the
/// file's operator name and any multi-node pattern already fused into it: the names of its
/// inputs, its declared outputs (with their inferred types), and its attributes.
#[derive(Debug, Clone)]
pub struct NodeProto {
    pub node_type: NodeType,
    pub name: String,
    pub inputs: Vec<String>,
    pub outputs: Vec<Argument>,
    pub attrs: Vec<(String, AttributeValue)>,
}

/// A decoded model: the declared graph inputs and outputs, the initializers (each under
/// its own name, with its value) and the nodes in file order.
#[derive(Debug, Clone)]
pub struct ModelProto {
    pub inputs: Vec<Argument>,
    pub outputs: Vec<Argument>,
    pub initializers: Vec<Argument>,
    pub nodes: Vec<NodeProto>,
}

/// Why a model could not be turned into a graph.
#[derive(Debug, Clone, Copy, PartialEq, Eq, Structural)]
pub enum BuildError {
    /// A node consumes a graph output.
    InvalidGraph,
    /// The nodes are not in topological order.
    NotTopologicallySorted,
    /// A constant node holds none of the attributes that carry a value.
    MissingConstantValue,
}

// ---------------------------------------------------------------------------------------
// Topological order
// ---------------------------------------------------------------------------------------

/// Every node comes no later than each node that consumes one of its outputs.
pub open spec fn top_sorted(nodes: Seq<NodeProto>) -> bool {
    forall|a: int, b: int, o: int, x: int|
        0 <= a < nodes.len() && 0 <= b < nodes.len() && 0 <= o < nodes[a].outputs@.len() && 0
            <= x < nodes[b].inputs@.len() && #[trigger] nodes[a].outputs@[o].name@
            == #[trigger] nodes[b].inputs@[x]@ ==> a <= b
}

/// Whether a node has an input named `name`.
fn consumes(node: &NodeProto, name: &String) -> (r: bool)
    ensures
        r == exists|x: int| 0 <= x < node.inputs@.len() && node.inputs@[x]@ == name@,
{
    let mut x: usize = 0;
    while x < node.inputs.len()
        invariant
            x <= node.inputs@.len(),
            forall|y: int| 0 <= y < x ==> node.inputs@[y]@ != name@,
        decreases node.inputs@.len() - x,
    {
        if node.inputs[x] == *name {
            return true;
        }
        x = x + 1;
    }
    false
}

/// Checks that the nodes are in topological order: no node consumes an output of a node
/// that comes after it.
pub fn is_top_sorted(nodes: &Vec<NodeProto>) -> (r: bool)
    ensures
        r == top_sorted(nodes@),
{
    let mut a: usize = 0;
    while a < nodes.len()
        invariant
            a <= nodes@.len(),
            forall|a2: int, b: int, o: int, x: int|
                0 <= a2 < a && 0 <= b < nodes@.len() && 0 <= o < nodes@[a2].outputs@.len() && 0
                    <= x < nodes@[b].inputs@.len() && #[trigger] nodes@[a2].outputs@[o].name@
                    == #[trigger] nodes@[b].inputs@[x]@ ==> a2 <= b,
        decreases nodes@.len() - a,
    {
        let node = &nodes[a];
        let mut o: usize = 0;
        while o < node.outputs.len()
            invariant
                a < nodes@.len(),
                node == nodes@[a as int],
                o <= node.outputs@.len(),
                forall|a2: int, b: int, o2: int, x: int|
                    0 <= a2 < a && 0 <= b < nodes@.len() && 0 <= o2 < nodes@[a2].outputs@.len()
                        && 0 <= x < nodes@[b].inputs@.len() && #[trigger] nodes@[a2].outputs@[o2].name@
                        == #[trigger] nodes@[b].inputs@[x]@ ==> a2 <= b,
                forall|b: int, o2: int, x: int|
                    0 <= b < nodes@.len() && 0 <= o2 < o && 0 <= x < nodes@[b].inputs@.len()
                        && #[trigger] nodes@[a as int].outputs@[o2].name@
                        == #[trigger] nodes@[b].inputs@[x]@ ==> a <= b,
            decreases node.outputs@.len() - o,
        {
            let mut b: usize = 0;
            while b < a
                invariant
                    a < nodes@.len(),
                    node == nodes@[a as int],
                    o < node.outputs@.len(),
                    b <= a,
                    forall|b2: int, x: int|
                        0 <= b2 < b && 0 <= x < nodes@[b2].inputs@.len() ==> #[trigger] nodes@[b2].inputs@[x]@
                            != nodes@[a as int].outputs@[o as int].name@,
                decreases a - b,
            {
                if consumes(&nodes[b], &node.outputs[o].name) {
                    return false;
                }
                b = b + 1;
            }
            o = o + 1;
        }
        a = a + 1;
    }
    true
}

// ---------------------------------------------------------------------------------------
// Naming
// ---------------------------------------------------------------------------------------

/// The name of the `count`-th node of kind `t`.
pub open spec fn node_name(t: NodeType, count: nat) -> Seq<char> {
    node_type_tag(t) + decimal(count)
}

/// The name of the `k`-th output (from 0) of the node named `node`.
pub open spec fn output_name(node: Seq<char>, k: nat) -> Seq<char> {
    node + "_out"@ + decimal(k + 1)
}

/// How many of the first `n` kinds in `types` equal `t`.
pub open spec fn count_kind(types: Seq<NodeType>, t: NodeType, n: int) -> nat
    decreases n,
{
    if n <= 0 {
        0
    } else {
        count_kind(types, t, n - 1) + if types[n - 1] == t {
            1nat
        } else {
            0nat
        }
    }
}

/// The operator kinds of a sequence of raw nodes.
pub open spec fn kinds_of(nodes: Seq<NodeProto>) -> Seq<NodeType> {
    nodes.map_values(|n: NodeProto| n.node_type)
}

// ---------------------------------------------------------------------------------------
// Constants
// ---------------------------------------------------------------------------------------

/// The attribute keys that can carry the value of a constant node, in order of preference.
pub open spec fn constant_key(i: int) -> Seq<char> {
    if i == 0 { "value"@ }
    else if i == 1 { "value_float"@ }
    else if i == 2 { "value_floats"@ }
    else if i == 3 { "value_int"@ }
    else if i == 4 { "value_ints"@ }
    else if i == 5 { "value_string"@ }
    else if i == 6 { "value_strings"@ }
    else { "sparse_value"@ }
}

fn constant_key_str(i: usize) -> (r: &'static str)
    requires
        i < 8,
    ensures
        r@ == constant_key(i as int),
{
    if i == 0 { "value" }
    else if i == 1 { "value_float" }
    else if i == 2 { "value_floats" }
    else if i == 3 { "value_int" }
    else if i == 4 { "value_ints" }
    else if i == 5 { "value_string" }
    else if i == 6 { "value_strings" }
    else { "sparse_value" }
}

/// The first attribute of `attrs` named `k`.
pub open spec fn first_attr(attrs: Seq<(Seq<char>, AttributeValueView)>, k: Seq<char>) -> Option<AttributeValueView>
    decreases attrs.len(),
{
    if attrs.len() == 0 {
        None
    } else if attrs[0].0 == k {
        Some(attrs[0].1)
    } else {
        first_attr(attrs.drop_first(), k)
    }
}

/// The value attribute of a constant node: the first of the keys, in order, that the
/// node holds.
pub open spec fn constant_attr_from(attrs: Seq<(Seq<char>, AttributeValueView)>, i: int) -> Option<AttributeValueView>
    decreases 8 - i,
{
    if i >= 8 {
        None
    } else {
        match first_attr(attrs, constant_key(i)) {
            Some(v) => Some(v),
            None => constant_attr_from(attrs, i + 1),
        }
    }
}

/// The argument that holds the value of a constant node, if it has one.
pub open spec fn constant_value(n: NodeView) -> Option<ArgumentView> {
    match constant_attr_from(n.attrs, 0) {
        Some(v) => Some(crate::ir::argument_of_attribute(v)),
        None => None,
    }
}

/// Finds the first attribute named `k`.
fn find_attr(attrs: &Vec<(String, AttributeValue)>, k: &str) -> (r: Option<usize>)
    ensures
        match r {
            Some(i) => i < attrs@.len() && first_attr(crate::ir::attrs_view(attrs@), k@) == Some(
                attrs@[i as int].1@,
            ),
            None => first_attr(crate::ir::attrs_view(attrs@), k@) is None,
        },
{
    let ghost all = crate::ir::attrs_view(attrs@);
    let key = String::from_str(k);
    assert(all.skip(0) =~= all);
    let mut i: usize = 0;
    while i < attrs.len()
        invariant
            i <= attrs@.len(),
            all == crate::ir::attrs_view(attrs@),
            key@ == k@,
            first_attr(all, k@) == first_attr(all.skip(i as int), k@),
        decreases attrs@.len() - i,
    {
        proof {
            assert(all.skip(i as int).drop_first() =~= all.skip(i + 1));
        }
        assert(all.skip(i as int)[0] == all[i as int]);
        if attrs[i].0 == key {
            return Some(i);
        }
        i = i + 1;
    }
    proof {
        assert(all.skip(i as int).len() == 0);
    }
    None
}

/// The value of a constant node, read from the first of its value-carrying attributes;
/// the node must hold one of them.
pub fn convert_constant_value(node: &Node) -> (r: Argument)
    requires
        constant_value(node@) is Some,
    ensures
        Some(r@) == constant_value(node@),
{
    match find_constant_value(node) {
        Some(a) => a,
        None => Argument::new(String::new()),
    }
}

/// The value of a constant node, if it holds one of the value-carrying attributes.
fn find_constant_value(node: &Node) -> (r: Option<Argument>)
    ensures
        match r {
            Some(a) => constant_value(node@) == Some(a@),
            None => constant_value(node@) is None,
        },
{
    let mut i: usize = 0;
    while i < 8
        invariant
            i <= 8,
            constant_attr_from(node@.attrs, 0) == constant_attr_from(node@.attrs, i as int),
        decreases 8 - i,
    {
        match find_attr(&node.attrs, constant_key_str(i)) {
            Some(j) => {
                return Some(Argument::from_attribute(&node.attrs[j].1));
            },
            None => {},
        }
        i = i + 1;
    }
    None
}

// ---------------------------------------------------------------------------------------
// Stages applied to one node
// ---------------------------------------------------------------------------------------

/// The argument a node input named `k` starts from, or `None` where `k` is a graph output.
pub open spec fn resolved_input(io: GraphIOView, k: Seq<char>) -> Option<ArgumentView> {
    match entry_of(io, k) {
        None => Some(
            match initializer_of(io, k) {
                Some(init) => init,
                None => crate::graph_io::fresh_argument(k),
            },
        ),
        Some(IOEntry::In(i)) => Some(ArgumentView { name: k, passed: true, ..io.inputs[i as int] }),
        Some(IOEntry::Node(i)) => Some(renamed(io.node_out[i as int], k)),
        Some(IOEntry::Out(_)) => None,
    }
}

/// Resolves the inputs of a raw node against the registry and takes over its outputs and
/// attributes. A node that consumes a graph output is an error.
pub fn convert_node(proto: &NodeProto, io: &OnnxGraphIO) -> (r: Result<Node, BuildError>)
    requires
        io.wf(),
    ensures
        match r {
            Ok(n) => {
                &&& n.node_type == proto.node_type
                &&& n.name == proto.name
                &&& n.inputs@.len() == proto.inputs@.len()
                &&& forall|j: int|
                    0 <= j < proto.inputs@.len() ==> resolved_input(io@, proto.inputs@[j]@)
                        == Some(#[trigger] n.inputs@[j]@)
                &&& args_view(n.outputs@) == args_view(proto.outputs@)
                &&& n@.attrs == crate::ir::attrs_view(proto.attrs@)
            },
            Err(e) => e == BuildError::InvalidGraph && exists|j: int|
                0 <= j < proto.inputs@.len() && resolved_input(io@, proto.inputs@[j]@) is None,
        },
        match r {
            Ok(n) => convert_spec(io@, *proto) == Some(n@),
            Err(_) => convert_spec(io@, *proto) is None,
        },
{
    let mut inputs: Vec<Argument> = Vec::new();
    let mut j: usize = 0;
    while j < proto.inputs.len()
        invariant
            io.wf(),
            j <= proto.inputs@.len(),
            inputs@.len() == j,
            forall|m: int|
                0 <= m < j ==> resolved_input(io@, proto.inputs@[m]@) == Some(
                    #[trigger] inputs@[m]@,
                ),
        decreases proto.inputs@.len() - j,
    {
        match io.init_in(&proto.inputs[j]) {
            Ok(a) => inputs.push(a),
            Err(_) => {
                proof {
                    assert(resolved_input(io@, proto.inputs@[j as int]@) is None);
                }
                return Err(BuildError::InvalidGraph);
            },
        }
        j = j + 1;
    }
    let mut attrs: Vec<(String, AttributeValue)> = Vec::new();
    let mut k: usize = 0;
    while k < proto.attrs.len()
        invariant
            k <= proto.attrs@.len(),
            attrs@.len() == k,
            forall|m: int|
                0 <= m < k ==> (#[trigger] attrs@[m]).0@ == proto.attrs@[m].0@ && attrs@[m].1@
                    == proto.attrs@[m].1@,
        decreases proto.attrs@.len() - k,
    {
        let (key, value) = &proto.attrs[k];
        attrs.push((key.clone(), duplicate_attribute(value)));
        k = k + 1;
    }
    let n = Node {
        node_type: proto.node_type,
        name: proto.name.clone(),
        inputs,
        outputs: crate::graph_io::duplicate_args(&proto.outputs),
        attrs,
    };
    proof {
        assert(n@.attrs =~= crate::ir::attrs_view(proto.attrs@));
        assert forall|j: int| 0 <= j < proto.inputs@.len() implies resolved_input(io@, #[trigger] proto.inputs@[j]@) is Some by {
            assert(resolved_input(io@, proto.inputs@[j]@) == Some(inputs@[j]@));
        }
        assert(n@.inputs =~= Seq::new(
            proto.inputs@.len(),
            |j: int| resolved_input(io@, proto.inputs@[j]@)->0,
        ));
    }
    Ok(n)
}

/// A copy of an attribute value with the same view.
fn duplicate_attribute(v: &AttributeValue) -> (r: AttributeValue)
    ensures
        r@ == v@,
{
    match v {
        AttributeValue::Float32(b) => AttributeValue::Float32(*b),
        AttributeValue::Float32s(x) => AttributeValue::Float32s(x.clone()),
        AttributeValue::Int64(x) => AttributeValue::Int64(*x),
        AttributeValue::Int64s(x) => AttributeValue::Int64s(x.clone()),
        AttributeValue::String(s) => AttributeValue::String(s.clone()),
        AttributeValue::Strings(x) => AttributeValue::Strings(x.clone()),
        AttributeValue::Tensor(t) => AttributeValue::Tensor(
            crate::ir::TensorData { shape: t.shape.clone(), data: t.data.duplicate() },
        ),
    }
}

/// The shape of a boundary argument as the literal target of a reshape.
pub open spec fn shape_literal(shape: Seq<usize>) -> Seq<i64> {
    shape.map_values(|x: usize| x as i64)
}

/// Whether the Unsqueeze rewrite applies to a node whose output is the boundary
/// argument `out`: both are tensors and the boundary's shape is known.
pub open spec fn reshape_target(n: NodeView, out: ArgumentView) -> Option<Seq<usize>> {
    if n.outputs.len() > 0 && n.inputs.len() > 1 && n.outputs[0].ty is Tensor {
        match out.ty {
            ArgTypeView::Tensor(t) => t.shape,
            _ => None,
        }
    } else {
        None
    }
}

/// The node after the Unsqueeze rewrite toward the boundary argument `out`: a Reshape
/// whose second input is an unnamed literal holding the boundary's shape, and whose
/// output is the boundary argument. A node the rewrite does not apply to stays as it is.
pub open spec fn reshape_of(n: NodeView, out: ArgumentView) -> NodeView {
    match reshape_target(n, out) {
        Some(shape) => NodeView {
            node_type: NodeType::Reshape,
            inputs: n.inputs.update(
                1,
                ArgumentView {
                    name: n.name + "_generated_const"@,
                    ty: vector_type(ElementType::Int64, shape.len()),
                    value: Some(DataView::Int64s(shape_literal(shape))),
                    passed: false,
                },
            ),
            outputs: n.outputs.update(0, out),
            ..n
        },
        None => n,
    }
}

/// Rewrites an Unsqueeze node whose output is the boundary argument `out_arg` into a
/// Reshape to the boundary's shape.
pub fn remap_unsqueeze_to_reshape(node: &mut Node, out_arg: &Argument)
    ensures
        final(node)@ == reshape_of(old(node)@, out_arg@),
{
    if node.outputs.len() == 0 || node.inputs.len() < 2 {
        return;
    }
    let is_tensor = match &node.outputs[0].ty {
        ArgType::Tensor(_) => true,
        _ => false,
    };
    if !is_tensor {
        return;
    }
    let shape = match &out_arg.ty {
        ArgType::Tensor(t) => match &t.shape {
            Some(s) => s,
            None => {
                return;
            },
        },
        _ => {
            return;
        },
    };
    let mut inner: Vec<i64> = Vec::new();
    let mut i: usize = 0;
    while i < shape.len()
        invariant
            i <= shape@.len(),
            inner@ == shape_literal(shape@.take(i as int)),
        decreases shape@.len() - i,
    {
        inner.push(shape[i] as i64);
        i = i + 1;
        proof {
            assert(inner@ =~= shape_literal(shape@.take(i as int)));
        }
    }
    proof {
        assert(shape@.take(shape@.len() as int) =~= shape@);
    }
    let shape_len = inner.len();
    let mut name = node.name.clone();
    name.append("_generated_const");
    let dims = vec![shape_len];
    proof {
        assert(dims@ =~= seq![shape@.len() as usize]);
    }
    let rhs_arg = Argument {
        name,
        ty: ArgType::Tensor(TensorType { elem_type: ElementType::Int64, dim: 1, shape: Some(dims) }),
        value: Some(Data::Int64s(inner)),
        passed: false,
    };
    let ghost before = node@;
    node.inputs.set(1, rhs_arg);
    node.outputs.set(0, out_arg.duplicate());
    node.node_type = NodeType::Reshape;
    proof {
        assert(node@.inputs =~= before.inputs.update(1, rhs_arg@));
        assert(node@.outputs =~= before.outputs.update(0, out_arg@));
    }
}


/// The error a registry refusal ends the build with: the order check runs first, as a
/// diagnostic.
pub open spec fn refusal_error(raw: Seq<NodeProto>) -> BuildError {
    if top_sorted(raw) {
        BuildError::InvalidGraph
    } else {
        BuildError::NotTopologicallySorted
    }
}

/// An Identity node that passes a non-literal value through; it is elided.
pub open spec fn is_elided_identity(n: NodeView) -> bool {
    n.node_type is Identity && n.inputs.len() > 0 && n.inputs[0].value is None && n.outputs.len()
        > 0
}

/// A node whose single output is a literal: a Constant, or an Identity of a literal.
pub open spec fn is_constant_source(n: NodeView) -> bool {
    (n.node_type is Constant || (n.node_type is Identity && n.inputs.len() > 0
        && n.inputs[0].value is Some)) && n.outputs.len() > 0
}

/// An Unsqueeze node whose axes operand is not a literal.
pub open spec fn unsqueeze_candidate(n: NodeView) -> bool {
    n.node_type is Unsqueeze && n.inputs.len() > 1 && n.inputs[1].value is None && n.outputs.len()
        > 0
}

/// What the registry answers when asked for the downstream name of a node input:
/// `Err` for a graph output, `Ok(None)` where the input is left unnamed.
pub open spec fn new_name_answer(io: GraphIOView, k: Seq<char>) -> Result<Option<Seq<char>>, ()> {
    match entry_of(io, k) {
        Some(IOEntry::In(i)) => if initializer_of(io, k) is Some {
            Ok(None)
        } else {
            Ok(Some(io.inputs[i as int].name))
        },
        Some(IOEntry::Out(_)) => Err(()),
        Some(IOEntry::Node(i)) => Ok(Some(io.node_out[i as int].name)),
        None => Ok(None),
    }
}

/// A node input after the registry's answer: renamed and in use, unnamed and unused, or,
/// where the registry refused, as it was.
pub open spec fn answered_input(a: ArgumentView, ans: Result<Option<Seq<char>>, ()>) -> ArgumentView {
    match ans {
        Ok(Some(n)) => ArgumentView { name: n, passed: true, ..a },
        Ok(None) => ArgumentView { name: Seq::empty(), passed: false, ..a },
        Err(_) => a,
    }
}

/// Whether a node keeps the names of its outputs after the first.
pub open spec fn renames_first_output_only(t: NodeType) -> bool {
    t is Constant || t is Identity
}

/// The outputs of a node named after it: `{name}_out{k}`, counted from 1; a Constant or
/// Identity node renames its first output only.
pub open spec fn renamed_outputs(n: NodeView) -> Seq<ArgumentView> {
    if renames_first_output_only(n.node_type) {
        if n.outputs.len() > 0 {
            n.outputs.update(0, renamed(n.outputs[0], output_name(n.name, 0)))
        } else {
            n.outputs
        }
    } else {
        Seq::new(n.outputs.len(), |k: int| renamed(n.outputs[k], output_name(n.name, k as nat)))
    }
}

/// The graph input at index `i` can be marked in use: some name resolves to it, and no
/// initializer has that name.
pub open spec fn marked_input(io: GraphIOView, i: int) -> bool {
    exists|k: Seq<char>|
        entry_of(io, k) == Some(IOEntry::In(i as usize)) && #[trigger] initializer_of(io, k) is None
}

/// Resolves the names of a node's inputs against the registry and names its outputs after
/// the node. A graph output among the inputs sends the check of topological order, which
/// fails the build if the nodes are out of order.
pub fn rename_io(node: &mut Node, graph_io: &mut OnnxGraphIO, raw: &Vec<NodeProto>) -> (r: Result<(), BuildError>)
    requires
        old(graph_io).wf(),
    ensures
        final(graph_io).wf(),
        forall|d: Seq<Seq<char>>|
            outs_declared(old(graph_io)@, d) ==> #[trigger] outs_declared(final(graph_io)@, d),
        forall|d: Seq<Seq<char>>|
            ins_declared(old(graph_io)@, d) ==> #[trigger] ins_declared(final(graph_io)@, d),
        final(graph_io)@.initializers == old(graph_io)@.initializers,
        final(graph_io)@.inputs.len() == old(graph_io)@.inputs.len(),
        forall|i: int|
            0 <= i < old(graph_io)@.inputs.len() ==> (#[trigger] final(graph_io)@.inputs[i]).name
                == old(graph_io)@.inputs[i].name && (final(graph_io)@.inputs[i].passed
                == old(graph_io)@.inputs[i].passed || marked_input(old(graph_io)@, i)),
        match r {
            Ok(_) => final(node)@ == (NodeView {
                inputs: Seq::new(
                    old(node)@.inputs.len(),
                    |j: int|
                        answered_input(
                            old(node)@.inputs[j],
                            new_name_answer(old(graph_io)@, old(node)@.inputs[j].name),
                        ),
                ),
                outputs: renamed_outputs(old(node)@),
                ..old(node)@
            }),
            Err(e) => e == refusal_error(raw@) && exists|j: int|
                0 <= j < old(node)@.inputs.len() && new_name_answer(
                    old(graph_io)@,
                    #[trigger] old(node)@.inputs[j].name,
                ) is Err,
        },
        r is Ok ==> forall|j: int|
            0 <= j < old(node)@.inputs.len() ==> new_name_answer(
                old(graph_io)@,
                #[trigger] old(node)@.inputs[j].name,
            ) is Ok,
        match rename_io_spec(old(node)@, old(graph_io)@, raw@) {
            Ok((n, io)) => r is Ok && final(node)@ == n && final(graph_io)@ == io,
            Err(e) => r == Err::<(), BuildError>(e),
        },
{
    let ghost io0 = graph_io@;
    let ghost n0 = node@;
    proof {
        assert(marked_upto(io0, n0, 0).inputs =~= io0.inputs);
        assert(marked_upto(io0, n0, 0) =~= io0);
    }
    let mut j: usize = 0;
    while j < node.inputs.len()
        invariant
            io0 == old(graph_io)@,
            graph_io.wf(),
            j <= node.inputs@.len(),
            node.inputs@.len() == n0.inputs.len(),
            node.node_type == n0.node_type,
            node@.name == n0.name,
            node@.outputs == n0.outputs,
            node@.attrs == n0.attrs,
            graph_io@.keys == io0.keys,
            graph_io@.entries == io0.entries,
            graph_io@.initializers == io0.initializers,
            graph_io@.node_out == io0.node_out,
            graph_io@.outputs == io0.outputs,
            graph_io@.inputs.len() == io0.inputs.len(),
            forall|m: int|
                0 <= m < io0.inputs.len() ==> #[trigger] graph_io@.inputs[m].name
                    == io0.inputs[m].name,
            forall|m: int|
                0 <= m < io0.inputs.len() ==> (#[trigger] graph_io@.inputs[m]).passed
                    == io0.inputs[m].passed || marked_input(io0, m),
            forall|m: int|
                0 <= m < j ==> node@.inputs[m] == answered_input(
                    n0.inputs[m],
                    new_name_answer(io0, n0.inputs[m].name),
                ),
            forall|m: int| j <= m < n0.inputs.len() ==> node@.inputs[m] == n0.inputs[m],
            forall|m: int| 0 <= m < j ==> new_name_answer(io0, #[trigger] n0.inputs[m].name) is Ok,
            n0 == old(node)@,
            graph_io@ == marked_upto(io0, n0, j as int),
        decreases n0.inputs.len() - j,
    {
        let ghost before = graph_io@;
        let ghost nb = node@;
        match graph_io.get_new_name(&node.inputs[j].name) {
            Ok(Some(input_name)) => {
                node.inputs[j].passed = true;
                node.inputs[j].name = input_name;
            },
            Ok(None) => {
                node.inputs[j].name = String::new();
                node.inputs[j].passed = false;
            },
            Err(_) => {
                proof {
                    assert forall|d: Seq<Seq<char>>|
                        outs_declared(io0, d) implies #[trigger] outs_declared(graph_io@, d) by {
                        assert(graph_io@.keys == io0.keys);
                        assert(graph_io@.entries == io0.entries);
                    }
                    assert forall|d: Seq<Seq<char>>|
                        ins_declared(io0, d) implies #[trigger] ins_declared(graph_io@, d) by {
                        assert(graph_io@.keys == io0.keys);
                        assert(graph_io@.entries == io0.entries);
                    }
                    let k = n0.inputs[j as int].name;
                    assert(nb.inputs[j as int] == n0.inputs[j as int]);
                    assert(entry_of(before, k) == entry_of(io0, k));
                    assert(new_name_answer(io0, n0.inputs[j as int].name) is Err);
                }
                if !is_top_sorted(raw) {
                    return Err(BuildError::NotTopologicallySorted);
                }
                return Err(BuildError::InvalidGraph);
            },
        }
        proof {
            let k = n0.inputs[j as int].name;
            assert(nb.inputs[j as int] == n0.inputs[j as int]);
            assert(node@.inputs[j as int] == node.inputs@[j as int]@);
            assert(entry_of(before, k) == entry_of(io0, k));
            assert(initializer_of(before, k) == initializer_of(io0, k));
            crate::name_map::lemma_last_match(before.keys, k, before.keys.len() as int);
            match entry_of(io0, k) {
                Some(IOEntry::In(i)) => {
                    let idx = last_match(before.keys, k, before.keys.len() as int);
                    assert(before.entries[idx] == IOEntry::In(i));
                    assert(before.inputs[i as int].name == io0.inputs[i as int].name);
                    if initializer_of(io0, k) is None {
                        assert(marked_input(io0, i as int));
                    }
                    assert forall|m: int| 0 <= m < io0.inputs.len() implies (#[trigger] graph_io@.inputs[m]).passed
                        == io0.inputs[m].passed || marked_input(io0, m) by {
                        if m != i {
                            assert(graph_io@.inputs[m] == before.inputs[m]);
                        }
                    }
                },
                _ => {},
            }
            assert forall|m: int| 0 <= m < node@.inputs.len() && m != j implies node@.inputs[m] == nb.inputs[m] by {
                assert(node@.inputs[m] == node.inputs@[m]@);
            }
            assert(node@.inputs[j as int] == answered_input(
                n0.inputs[j as int],
                new_name_answer(io0, n0.inputs[j as int].name),
            ));
            assert forall|m: int| 0 <= m < j implies node@.inputs[m] == answered_input(
                n0.inputs[m],
                new_name_answer(io0, n0.inputs[m].name),
            ) by {
                assert(node@.inputs[m] == nb.inputs[m]);
            }
            let target = marked_upto(io0, n0, j + 1);
            assert forall|m: int| 0 <= m < io0.inputs.len() implies #[trigger] graph_io@.inputs[m] == target.inputs[m] by {
                let was = exists|j2: int|
                    0 <= j2 < j && resolves_to_input(io0, #[trigger] n0.inputs[j2].name, m)
                        && initializer_of(io0, n0.inputs[j2].name) is None;
                let now = exists|j2: int|
                    0 <= j2 < j + 1 && resolves_to_input(io0, #[trigger] n0.inputs[j2].name, m)
                        && initializer_of(io0, n0.inputs[j2].name) is None;
                let hit = resolves_to_input(io0, k, m) && initializer_of(io0, k) is None;
                if was {
                    let j2 = choose|j2: int|
                        0 <= j2 < j && resolves_to_input(io0, #[trigger] n0.inputs[j2].name, m)
                            && initializer_of(io0, n0.inputs[j2].name) is None;
                    assert(now);
                }
                if hit {
                    assert(now);
                }
                if now {
                    let j2 = choose|j2: int|
                        0 <= j2 < j + 1 && resolves_to_input(io0, #[trigger] n0.inputs[j2].name, m)
                            && initializer_of(io0, n0.inputs[j2].name) is None;
                    if j2 < j {
                        assert(was);
                    }
                }
                assert(before.inputs[m] == marked_upto(io0, n0, j as int).inputs[m]);
            }
            assert(graph_io@.inputs =~= target.inputs);
            assert(graph_io@ =~= target);
        }
        j = j + 1;
    }
    let ghost n1 = node@;
    let ghost io1 = graph_io@;
    proof {
        assert(io1 == marked_io(io0, n0));
        assert(n1.inputs =~= Seq::new(
            n0.inputs.len(),
            |j: int| answered_input(n0.inputs[j], new_name_answer(io0, n0.inputs[j].name)),
        ));
    }
    if node.node_type == NodeType::Constant || node.node_type == NodeType::Identity {
        if node.outputs.len() > 0 {
            let mut new_name = node.name.clone();
            new_name.append("_out");
            push_decimal(&mut new_name, 1);
            assert(new_name@ =~= output_name(n1.name, 0));
            let ghost io_mid = graph_io@;
            proof {
                assert(node.outputs@[0]@ == n0.outputs[0]);
            }
            graph_io.insert(&node.outputs[0], &new_name);
            proof {
                assert forall|d: Seq<Seq<char>>|
                    outs_declared(io0, d) implies #[trigger] outs_declared(graph_io@, d) by {
                    crate::graph_io::lemma_insert_keeps_outs(io_mid, node@.outputs[0], new_name@, d);
                }
                assert forall|d: Seq<Seq<char>>|
                    ins_declared(io0, d) implies #[trigger] ins_declared(graph_io@, d) by {
                    crate::graph_io::lemma_insert_keeps_inputs(io_mid, node@.outputs[0], new_name@, d);
                }
                assert(graph_io@.inputs == io_mid.inputs);
                assert(graph_io@.initializers == io_mid.initializers);
            }
            node.outputs[0].name = new_name;
            proof {
                assert(node@.outputs =~= renamed_outputs(n1));
            }
        }
    } else {
        let mut k: usize = 0;
        while k < node.outputs.len()
            invariant
                graph_io.wf(),
                graph_io@.keys == io0.keys,
                graph_io@.entries == io0.entries,
                graph_io@.inputs == io1.inputs,
                graph_io@.initializers == io1.initializers,
                graph_io@ == renamed_outputs_io(io1, n0, k as nat),
                n1.name == n0.name,
                n1.outputs == n0.outputs,
                k <= node.outputs@.len(),
                node.outputs@.len() == n1.outputs.len(),
                node@.name == n1.name,
                node.node_type == n1.node_type,
                !renames_first_output_only(n1.node_type),
                node@.inputs == n1.inputs,
                node@.attrs == n1.attrs,
                forall|m: int| 0 <= m < k ==> node@.outputs[m] == renamed(n1.outputs[m], output_name(n1.name, m as nat)),
                forall|m: int| k <= m < n1.outputs.len() ==> node@.outputs[m] == n1.outputs[m],
            decreases n1.outputs.len() - k,
        {
            let mut new_name = node.name.clone();
            new_name.append("_out");
            push_decimal(&mut new_name, k + 1);
            proof {
                assert(node.outputs@[k as int]@ == node@.outputs[k as int]);
            }
            let _ = graph_io.update_name(&node.outputs[k].name, &new_name);
            assert(new_name@ =~= output_name(n1.name, k as nat));
            let ghost nb = node@;
            node.outputs[k].name = new_name;
            proof {
                assert(node@.outputs[k as int] == node.outputs@[k as int]@);
                assert(node@.outputs[k as int] == renamed(n1.outputs[k as int], output_name(n1.name, k as nat)));
                assert forall|m: int| 0 <= m < node@.outputs.len() && m != k implies node@.outputs[m] == nb.outputs[m] by {
                    assert(node@.outputs[m] == node.outputs@[m]@);
                }
                assert forall|m: int| 0 <= m < k implies node@.outputs[m] == renamed(n1.outputs[m], output_name(n1.name, m as nat)) by {
                    assert(node@.outputs[m] == nb.outputs[m]);
                }
            }
            k = k + 1;
        }
        proof {
            assert(node@.outputs =~= renamed_outputs(n1));
        }
    }
    proof {
        assert(node@.inputs =~= n1.inputs);
        assert(graph_io@ == outputs_io(marked_io(io0, n0), n0));
    }
    Ok(())
}

/// The arguments of `s` that are in use, in order.
pub open spec fn passed_only(s: Seq<ArgumentView>) -> Seq<ArgumentView>
    decreases s.len(),
{
    if s.len() == 0 {
        s
    } else if s.last().passed {
        passed_only(s.drop_last()).push(s.last())
    } else {
        passed_only(s.drop_last())
    }
}

/// Keeps the arguments of `args` that are in use.
fn retain_passed(args: &mut Vec<Argument>)
    ensures
        args_view(final(args)@) == passed_only(args_view(old(args)@)),
{
    let ghost all = args_view(args@);
    let mut kept: Vec<Argument> = Vec::new();
    let mut i: usize = 0;
    while i < args.len()
        invariant
            i <= args@.len(),
            all == args_view(args@),
            args_view(kept@) == passed_only(all.take(i as int)),
        decreases args@.len() - i,
    {
        proof {
            assert(all.take(i + 1).drop_last() =~= all.take(i as int));
        }
        if args[i].passed {
            let ghost prev = kept@;
            kept.push(args[i].duplicate());
            proof {
                assert(args_view(kept@) =~= args_view(prev).push(all[i as int]));
            }
        }
        i = i + 1;
    }
    proof {
        assert(all.take(args@.len() as int) =~= all);
    }
    *args = kept;
}

/// Removes the graph inputs and outputs that no node uses.
pub fn remove_unused_graph_inputs(inputs: &mut Vec<Argument>, outputs: &mut Vec<Argument>)
    ensures
        args_view(final(inputs)@) == passed_only(args_view(old(inputs)@)),
        args_view(final(outputs)@) == passed_only(args_view(old(outputs)@)),
{
    retain_passed(inputs);
    retain_passed(outputs);
}

/// What the final name of the node at index `q` of the model, and the names of its
/// outputs, are made of: its operator kind, how many nodes of that kind come up to it,
/// and the position of each output.
pub open spec fn node_law(n: NodeView, raw: Seq<NodeProto>, q: int) -> bool {
    let kinds = kinds_of(raw);
    let t = kinds[q];
    &&& n.name == node_name(t, count_kind(kinds, t, q + 1))
    &&& n.outputs.len() == raw[q].outputs@.len()
    &&& if renames_first_output_only(t) {
        n.outputs.len() > 0 ==> n.outputs[0].name == output_name(n.name, 0)
    } else {
        forall|k: int| 0 <= k < n.outputs.len() ==> #[trigger] n.outputs[k].name == output_name(n.name, k as nat)
    }
}

/// `nodes` are nodes of the model `raw`, kept in order: the node at position `p` comes
/// from index `kept[p]` of the model and is named after it.
pub open spec fn names_follow_kinds(nodes: Seq<NodeView>, raw: Seq<NodeProto>, kept: Seq<int>) -> bool {
    &&& kept.len() == nodes.len()
    &&& forall|p: int| 0 <= p < kept.len() ==> 0 <= #[trigger] kept[p] < raw.len()
    &&& forall|p: int, p2: int| 0 <= p < p2 < kept.len() ==> kept[p] < kept[p2]
    &&& forall|p: int| 0 <= p < kept.len() ==> node_law(#[trigger] nodes[p], raw, kept[p])
}

/// Views of a sequence of nodes.
pub open spec fn nodes_view(s: Seq<Node>) -> Seq<NodeView> {
    s.map_values(|n: Node| n@)
}

/// The operator kind at a position of the declaration order.
pub open spec fn node_type_at(i: nat) -> NodeType {
    if i == 0 { NodeType::Abs }
    else if i == 1 { NodeType::Add }
    else if i == 2 { NodeType::AveragePool2d }
    else if i == 3 { NodeType::BatchNormalization }
    else if i == 4 { NodeType::Cast }
    else if i == 5 { NodeType::Clip }
    else if i == 6 { NodeType::Concat }
    else if i == 7 { NodeType::Constant }
    else if i == 8 { NodeType::Conv1d }
    else if i == 9 { NodeType::Conv2d }
    else if i == 10 { NodeType::Cos }
    else if i == 11 { NodeType::Div }
    else if i == 12 { NodeType::Dropout }
    else if i == 13 { NodeType::Equal }
    else if i == 14 { NodeType::Erf }
    else if i == 15 { NodeType::Exp }
    else if i == 16 { NodeType::Flatten }
    else if i == 17 { NodeType::Gather }
    else if i == 18 { NodeType::Gelu }
    else if i == 19 { NodeType::Gemm }
    else if i == 20 { NodeType::GlobalAveragePool }
    else if i == 21 { NodeType::Identity }
    else if i == 22 { NodeType::LayerNormalization }
    else if i == 23 { NodeType::Linear }
    else if i == 24 { NodeType::Log }
    else if i == 25 { NodeType::LogSoftmax }
    else if i == 26 { NodeType::MatMul }
    else if i == 27 { NodeType::MaxPool2d }
    else if i == 28 { NodeType::Mul }
    else if i == 29 { NodeType::Neg }
    else if i == 30 { NodeType::Reciprocal }
    else if i == 31 { NodeType::ReduceMean }
    else if i == 32 { NodeType::Relu }
    else if i == 33 { NodeType::Reshape }
    else if i == 34 { NodeType::Sigmoid }
    else if i == 35 { NodeType::Softmax }
    else if i == 36 { NodeType::Sqrt }
    else if i == 37 { NodeType::Sub }
    else if i == 38 { NodeType::Sum }
    else if i == 39 { NodeType::Tanh }
    else if i == 40 { NodeType::Transpose }
    else { NodeType::Unsqueeze }
}

/// Each operator kind is found back from its position.
pub proof fn lemma_node_type_index_inverse(t: NodeType)
    ensures
        node_type_at(node_type_index(t)) == t,
{
}

/// A count over a prefix never exceeds the prefix's length.
pub proof fn lemma_count_kind_bound(types: Seq<NodeType>, t: NodeType, n: int)
    requires
        0 <= n,
    ensures
        count_kind(types, t, n) <= n,
    decreases n,
{
    if n > 0 {
        lemma_count_kind_bound(types, t, n - 1);
    }
}

/// Every argument that `passed_only` keeps comes from the list and is in use.
#[verifier::spinoff_prover]
pub proof fn lemma_passed_only_members(s: Seq<ArgumentView>)
    ensures
        forall|p: int|
            #![trigger passed_only(s)[p]]
            0 <= p < passed_only(s).len() ==> exists|i: int|
                #![trigger s[i]]
                0 <= i < s.len() && passed_only(s)[p] == s[i] && s[i].passed,
    decreases s.len(),
{
    if s.len() > 0 {
        lemma_passed_only_members(s.drop_last());
        let u = s.drop_last();
        let t = passed_only(u);
        let last = s.last();
        if last.passed {
            assert(passed_only(s) == t.push(last));
        } else {
            assert(passed_only(s) == t);
        }
        assert forall|p: int| #![trigger passed_only(s)[p]] 0 <= p < passed_only(s).len() implies exists|i: int|
            #![trigger s[i]]
            0 <= i < s.len() && passed_only(s)[p] == s[i] && s[i].passed by {
            if p < t.len() {
                assert(passed_only(s)[p] == t[p]);
                let i = choose|i: int| #![trigger u[i]] 0 <= i < u.len() && t[p] == u[i] && u[i].passed;
                assert(s[i] == u[i]);
            } else {
                assert(last.passed);
                assert(p == t.len());
                assert(passed_only(s)[p] == s[s.len() - 1]);
                assert(0 <= s.len() - 1 < s.len() && passed_only(s)[p] == s[s.len() - 1] && s[s.len() - 1].passed);
            }
        }
    }
}

/// Every argument that `passed_only` keeps is in use.
pub proof fn lemma_passed_only_all_passed(s: Seq<ArgumentView>)
    ensures
        forall|p: int| 0 <= p < passed_only(s).len() ==> (#[trigger] passed_only(s)[p]).passed,
    decreases s.len(),
{
    if s.len() > 0 {
        lemma_passed_only_all_passed(s.drop_last());
    }
}

/// Whether `x` is among `v`.
fn contains_index(v: &Vec<usize>, x: usize) -> (r: bool)
    ensures
        r == v@.contains(x),
{
    let mut i: usize = 0;
    while i < v.len()
        invariant
            i <= v@.len(),
            forall|j: int| 0 <= j < i ==> v@[j] != x,
        decreases v@.len() - i,
    {
        if v[i] == x {
            return true;
        }
        i = i + 1;
    }
    false
}

/// What building a model yields: exactly the graph that `built_graph` describes, or its
/// error. A graph comes only from nodes in topological order. It keeps only graph inputs
/// and outputs in use; its nodes are nodes of the model, in order, named after their
/// kinds, and none of them is an Identity that passes a non-literal value through.
pub open spec fn build_outcome(model: ModelProto, r: Result<OnnxGraph, BuildError>) -> bool {
    &&& match built_graph(model) {
        Ok((ns, ins, outs)) => r matches Ok(g) && nodes_view(g.nodes@) == ns && args_view(g.inputs@)
            == ins && args_view(g.outputs@) == outs,
        Err(e) => r == Err::<OnnxGraph, BuildError>(e),
    }
    &&& r is Ok ==> top_sorted(model.nodes@)
    &&& match r {
        Ok(g) => {
            &&& forall|p: int| 0 <= p < g.inputs@.len() ==> (#[trigger] g.inputs@[p]).passed
            &&& forall|p: int| 0 <= p < g.outputs@.len() ==> (#[trigger] g.outputs@[p]).passed
            &&& exists|kept: Seq<int>| names_follow_kinds(nodes_view(g.nodes@), model.nodes@, kept)
            &&& forall|p: int| 0 <= p < g.nodes@.len() ==> !is_elided_identity(#[trigger] g.nodes@[p]@)
            &&& forall|p: int|
                0 <= p < g.inputs@.len() ==> exists|i: int|
                    #![trigger model.inputs@[i]]
                    0 <= i < model.inputs@.len() && (#[trigger] g.inputs@[p]).name@ == input_name(
                        i as nat,
                    ) && find_named(args_view(model.initializers@), model.inputs@[i].name@) is None
        },
        Err(_) => true,
    }
}

/// Once the pipeline fails on a node, it fails with that error for every longer prefix.
pub proof fn lemma_pipeline_err_persists(m: ModelProto, i: nat, n: nat)
    requires
        i <= n,
        pipeline(m, i) is Err,
    ensures
        pipeline(m, n) == pipeline(m, i),
    decreases n - i,
{
    if i < n {
        lemma_pipeline_err_persists(m, i, (n - 1) as nat);
    }
}

/// Renaming a node's inputs and outputs never marks in use a graph input that has an
/// initializer of its name.
proof fn lemma_inputs_keep_flags(before: GraphIOView, after: GraphIOView, model: ModelProto)
    requires
        model.inputs@.len() < usize::MAX,
        before.keys.len() == before.entries.len(),
        ins_declared(before, names_of(args_view(model.inputs@))),
        before.initializers == args_view(model.initializers@),
        before.inputs.len() == model.inputs@.len(),
        forall|m: int|
            0 <= m < model.inputs@.len() ==> (#[trigger] before.inputs[m]).name == input_name(m as nat)
                && (find_named(args_view(model.initializers@), model.inputs@[m].name@) is Some
                ==> !before.inputs[m].passed),
        after.inputs.len() == before.inputs.len(),
        forall|i: int|
            0 <= i < before.inputs.len() ==> (#[trigger] after.inputs[i]).name == before.inputs[i].name
                && (after.inputs[i].passed == before.inputs[i].passed || marked_input(before, i)),
    ensures
        forall|m: int|
            0 <= m < model.inputs@.len() ==> (#[trigger] after.inputs[m]).name == input_name(m as nat)
                && (find_named(args_view(model.initializers@), model.inputs@[m].name@) is Some
                ==> !after.inputs[m].passed),
{
    let decl = names_of(args_view(model.inputs@));
    assert forall|m: int| 0 <= m < model.inputs@.len() implies (#[trigger] after.inputs[m]).name
        == input_name(m as nat) && (find_named(args_view(model.initializers@), model.inputs@[m].name@)
        is Some ==> !after.inputs[m].passed) by {
        assert(before.inputs[m].name == input_name(m as nat));
        if find_named(args_view(model.initializers@), model.inputs@[m].name@) is Some
            && after.inputs[m].passed != before.inputs[m].passed {
            assert(marked_input(before, m));
            let k = choose|k: Seq<char>|
                entry_of(before, k) == Some(IOEntry::In(m as usize)) && #[trigger] initializer_of(before, k) is None;
            crate::graph_io::lemma_in_entry_declared(before, decl, k, m as usize);
            assert(decl[m] == model.inputs@[m].name@);
            assert((m as usize) as int == m);
        }
    }
}

/// The builder's state while it walks the nodes of one model.
pub struct ONNXGraphBuilder {
    /// The nodes processed so far, removed ones included.
    nodes: Vec<Node>,
    /// The names that elided Identity nodes pass through, in order of elision.
    identity_sources: Vec<String>,
    /// For each operator kind, how many nodes of that kind have been named.
    node_name_counter: Vec<usize>,
    /// Indices of the nodes to remove.
    nodes_to_remove: Vec<usize>,
    /// Map from constant node output names to the indices of those nodes.
    constants_map: NameMap<usize>,
    /// Map from elided Identity node output names to the indices of their sources.
    identity_idx: NameMap<usize>,
}

impl View for ONNXGraphBuilder {
    type V = BuilderView;

    closed spec fn view(&self) -> BuilderView {
        BuilderView {
            nodes: nodes_view(self.nodes@),
            counters: self.node_name_counter@,
            to_remove: self.nodes_to_remove@.to_set(),
            const_keys: self.constants_map.keys.deep_view(),
            const_vals: self.constants_map.vals@,
            id_keys: self.identity_idx.keys.deep_view(),
            id_vals: self.identity_idx.vals@,
            id_sources: self.identity_sources.deep_view(),
        }
    }
}

impl ONNXGraphBuilder {
    /// The lookups of the builder agree with those of its view.
    proof fn lemma_view_lookups(&self)
        ensures
            forall|k: Seq<char>| #[trigger] self.pass_through(k) == pass_through_v(self@, k),
            forall|a: ArgumentView| #[trigger] self.lift_source(a) == lift_source_v(self@, a),
            forall|a: ArgumentView| #[trigger] self.lifted_input(a) == lifted_input_v(self@, a),
    {
        assert forall|k: Seq<char>| #[trigger] self.pass_through(k) == pass_through_v(self@, k) by {
            match self.identity_idx.lookup(k) {
                Some(idx) => {
                    if idx < self.identity_sources@.len() {
                        assert(self.identity_sources.deep_view()[idx as int] == self.identity_sources@[idx as int]@);
                    }
                },
                None => {},
            }
        }
        assert forall|a: ArgumentView| #[trigger] self.lifted_input(a) == lifted_input_v(self@, a) by {
            match self.lift_source(a) {
                Some(ci) => {
                    assert(nodes_view(self.nodes@)[ci as int] == self.nodes@[ci as int]@);
                },
                None => {},
            }
        }
    }

    /// The builder's invariant: counters for every kind, and every recorded index points
    /// to a processed node.
    pub closed spec fn wf(&self) -> bool {
        &&& self.node_name_counter@.len() == NODE_TYPE_COUNT
        &&& self.constants_map.wf()
        &&& self.identity_idx.wf()
        &&& forall|j: int|
            0 <= j < self.identity_idx.vals@.len() ==> #[trigger] self.identity_idx.vals@[j]
                < self.identity_sources@.len()
    }

    /// A builder that has processed no node.
    pub closed spec fn fresh(&self) -> bool {
        &&& self.wf()
        &&& self.nodes@.len() == 0
        &&& self.constants_map.vals@.len() == 0
        &&& self.constants_map.keys@.len() == 0
        &&& self.identity_idx.vals@.len() == 0
        &&& self.identity_idx.keys@.len() == 0
        &&& self.identity_sources@.len() == 0
        &&& self.nodes_to_remove@.len() == 0
        &&& forall|t: int|
            0 <= t < NODE_TYPE_COUNT ==> #[trigger] self.node_name_counter@[t] == 0
    }

    /// Number of nodes processed so far.
    pub closed spec fn processed(&self) -> nat {
        self.nodes@.len()
    }

    /// A builder that has processed no node.
    pub fn new() -> (r: Self)
        ensures
            r.wf(),
            r.processed() == 0,
            r.fresh(),
    {
        let mut counters: Vec<usize> = Vec::new();
        let mut t: usize = 0;
        while t < NODE_TYPE_COUNT
            invariant
                t <= NODE_TYPE_COUNT,
                counters@.len() == t,
                forall|u: int| 0 <= u < t ==> #[trigger] counters@[u] == 0,
            decreases NODE_TYPE_COUNT - t,
        {
            counters.push(0);
            t = t + 1;
        }
        ONNXGraphBuilder {
            nodes: Vec::new(),
            identity_sources: Vec::new(),
            node_name_counter: counters,
            nodes_to_remove: Vec::new(),
            constants_map: NameMap::new(),
            identity_idx: NameMap::new(),
        }
    }

    /// Gives the node its final name: the tag of its kind followed by how many nodes of
    /// that kind have been named so far, this one included.
    fn handle_node_renaming(&mut self, node: &mut Node)
        requires
            old(self).wf(),
            old(self).node_name_counter@[node_type_index(old(node).node_type) as int] < usize::MAX,
        ensures
            final(self).wf(),
            final(self).processed() == old(self).processed(),
            final(self).node_name_counter@ == old(self).node_name_counter@.update(
                node_type_index(old(node).node_type) as int,
                (old(self).node_name_counter@[node_type_index(old(node).node_type) as int]
                    + 1) as usize,
            ),
            final(self).nodes == old(self).nodes,
            final(self).identity_sources == old(self).identity_sources,
            final(self).nodes_to_remove == old(self).nodes_to_remove,
            final(self).constants_map == old(self).constants_map,
            final(self).identity_idx == old(self).identity_idx,
            final(node)@ == (NodeView {
                name: node_name(
                    old(node).node_type,
                    (old(self).node_name_counter@[node_type_index(old(node).node_type) as int]
                        + 1) as nat,
                ),
                ..old(node)@
            }),
            final(self)@ == counted(old(self)@, old(node).node_type),
            final(node)@ == named_node(old(self)@, old(node)@),
    {
        let t = node.node_type.index();
        let count = self.node_name_counter[t] + 1;
        self.node_name_counter.set(t, count);
        node.name = concat_decimal(node.node_type.tag(), count);
        proof {
            assert(self@.counters =~= counted(old(self)@, old(node).node_type).counters);
        }
    }

    /// The name an input takes once Identity nodes are passed through.
    closed spec fn pass_through(&self, k: Seq<char>) -> Seq<char> {
        match self.identity_idx.lookup(k) {
            Some(idx) => if idx < self.identity_sources@.len() {
                self.identity_sources@[idx as int]@
            } else {
                k
            },
            None => k,
        }
    }

    /// Elides an Identity node of a non-literal value: marks it for removal and remembers
    /// the name it passes through, under its output name. Any other node has each input
    /// that names such an output redirected to the passed-through name.
    fn handle_identity(&mut self, node: &mut Node, i: usize)
        requires
            old(self).wf(),
        ensures
            final(self).wf(),
            final(self).nodes == old(self).nodes,
            final(self).node_name_counter == old(self).node_name_counter,
            final(self).constants_map == old(self).constants_map,
            if is_elided_identity(old(node)@) {
                &&& final(node)@ == old(node)@
                &&& final(self).nodes_to_remove@ == old(self).nodes_to_remove@.push(i)
                &&& final(self).pass_through(old(node)@.outputs[0].name) == old(self).pass_through(
                    old(node)@.inputs[0].name,
                )
                &&& forall|k: Seq<char>|
                    k != old(node)@.outputs[0].name ==> final(self).pass_through(k) == old(
                        self,
                    ).pass_through(k)
            } else {
                &&& final(self).nodes_to_remove == old(self).nodes_to_remove
                &&& final(self).identity_idx == old(self).identity_idx
                &&& final(self).identity_sources == old(self).identity_sources
                &&& final(node)@ == (NodeView {
                    inputs: Seq::new(
                        old(node)@.inputs.len(),
                        |j: int| renamed(old(node)@.inputs[j], old(self).pass_through(old(node)@.inputs[j].name)),
                    ),
                    ..old(node)@
                })
            },
            final(self)@ == identity_b(old(self)@, old(node)@, i),
            final(node)@ == identity_n(old(self)@, old(node)@),
    {
        proof {
            self.lemma_view_lookups();
        }
        if node.node_type == NodeType::Identity && node.inputs.len() > 0 && node.inputs[0].value.is_none()
            && node.outputs.len() > 0 {
            let source = self.substitute(&node.inputs[0].name);
            let idx = self.identity_sources.len();
            let ghost before = *self;
            self.identity_sources.push(source);
            self.identity_idx.insert(node.outputs[0].name.clone(), idx);
            self.nodes_to_remove.push(i);
            proof {
                assert(self.identity_sources.deep_view() =~= before.identity_sources.deep_view().push(source@));
                assert(self.nodes_to_remove@ == before.nodes_to_remove@.push(i));
                before.nodes_to_remove@.lemma_push_to_set_commute(i);
                assert(node@.outputs[0] == node.outputs@[0]@);
                assert(node@.inputs[0] == node.inputs@[0]@);
                assert(self@ =~= identity_b(before@, node@, i));
                assert forall|k: Seq<char>| k != node@.outputs[0].name implies self.pass_through(k)
                    == before.pass_through(k) by {
                    crate::name_map::lemma_last_match(
                        before.identity_idx.keys.deep_view(),
                        k,
                        before.identity_idx.keys@.len() as int,
                    );
                    match before.identity_idx.lookup(k) {
                        Some(v) => {
                            if v < before.identity_sources@.len() {
                                assert(self.identity_sources@[v as int] == before.identity_sources@[v as int]);
                            }
                        },
                        None => {},
                    }
                }
                assert forall|j: int| 0 <= j < self.identity_idx.vals@.len() implies #[trigger] self.identity_idx.vals@[j]
                    < self.identity_sources@.len() by {
                    if j < before.identity_idx.vals@.len() {
                        assert(self.identity_idx.vals@[j] == before.identity_idx.vals@[j]);
                    }
                }
            }
        } else {
            let ghost n0 = node@;
            let mut j: usize = 0;
            while j < node.inputs.len()
                invariant
                    self.wf(),
                    j <= node.inputs@.len(),
                    node.inputs@.len() == n0.inputs.len(),
                    node.node_type == n0.node_type,
                    node@.name == n0.name,
                    node@.outputs == n0.outputs,
                    node@.attrs == n0.attrs,
                    forall|m: int| 0 <= m < j ==> node@.inputs[m] == renamed(n0.inputs[m], self.pass_through(n0.inputs[m].name)),
                    forall|m: int| j <= m < n0.inputs.len() ==> node@.inputs[m] == n0.inputs[m],
                decreases n0.inputs.len() - j,
            {
                let ghost nb = node@;
                let new_name = self.substitute(&node.inputs[j].name);
                node.inputs[j].name = new_name;
                proof {
                    assert(node@.inputs[j as int] == node.inputs@[j as int]@);
                    assert(nb.inputs[j as int] == n0.inputs[j as int]);
                    assert forall|m: int| 0 <= m < node@.inputs.len() && m != j implies node@.inputs[m] == nb.inputs[m] by {
                        assert(node@.inputs[m] == node.inputs@[m]@);
                    }
                    assert forall|m: int| 0 <= m < j implies node@.inputs[m] == renamed(n0.inputs[m], self.pass_through(n0.inputs[m].name)) by {
                        assert(node@.inputs[m] == nb.inputs[m]);
                    }
                }
                j = j + 1;
            }
            proof {
                assert(node@.inputs =~= Seq::new(
                    n0.inputs.len(),
                    |j: int| renamed(n0.inputs[j], self.pass_through(n0.inputs[j].name)),
                ));
                assert(node@.inputs =~= identity_n(self@, n0).inputs);
            }
        }
    }

    /// The name `name` takes once Identity nodes are passed through.
    fn substitute(&self, name: &String) -> (r: String)
        requires
            self.wf(),
        ensures
            r@ == self.pass_through(name@),
    {
        match self.identity_idx.get(name) {
            Some(idx) => if idx < self.identity_sources.len() {
                self.identity_sources[idx].clone()
            } else {
                name.clone()
            },
            None => name.clone(),
        }
    }

    /// The index of the constant node whose output an input names, if that node has been
    /// processed.
    closed spec fn lift_source(&self, a: ArgumentView) -> Option<usize> {
        match self.constants_map.lookup(a.name) {
            Some(ci) => if ci < self.nodes@.len() {
                Some(ci)
            } else {
                None
            },
            None => None,
        }
    }

    /// An input after constant lifting: it takes the literal of the constant node its name
    /// refers to (the literal input of an Identity, or the value attribute of a Constant);
    /// `None` where that Constant holds no value.
    closed spec fn lifted_input(&self, a: ArgumentView) -> Option<ArgumentView> {
        match self.lift_source(a) {
            Some(ci) => {
                let c = self.nodes@[ci as int]@;
                if c.inputs.len() > 0 && c.inputs[0].value is Some {
                    Some(with_value_of(a, c.inputs[0]))
                } else {
                    match constant_value(c) {
                        Some(v) => Some(with_value_of(a, v)),
                        None => None,
                    }
                }
            },
            None => Some(a),
        }
    }

    /// Records the output of a constant source under its node index; for an operator that
    /// takes literal operands, lifts into each input after the first the literal of the
    /// constant node it names, and marks that node for removal.
    fn check_constants(&mut self, node: &mut Node, i: usize) -> (r: Result<(), BuildError>)
        requires
            old(self).wf(),
        ensures
            final(self).wf(),
            final(self).nodes == old(self).nodes,
            final(self).node_name_counter == old(self).node_name_counter,
            final(self).identity_idx == old(self).identity_idx,
            final(self).identity_sources == old(self).identity_sources,
            r is Err ==> r == Err::<(), BuildError>(BuildError::MissingConstantValue),
            if is_constant_source(old(node)@) {
                &&& r is Ok
                &&& final(node)@ == old(node)@
                &&& final(self).nodes_to_remove == old(self).nodes_to_remove
                &&& final(self).constants_map.lookup(old(node)@.outputs[0].name) == Some(i)
                &&& forall|k: Seq<char>|
                    k != old(node)@.outputs[0].name ==> final(self).constants_map.lookup(k) == old(
                        self,
                    ).constants_map.lookup(k)
                &&& final(self).constants_map.vals@ == old(self).constants_map.vals@.push(i)
            } else if lifts_constants(old(node)@.node_type) {
                &&& final(self).constants_map == old(self).constants_map
                &&& (r is Ok <==> forall|j: int|
                    1 <= j < old(node)@.inputs.len() ==> old(self).lifted_input(
                        #[trigger] old(node)@.inputs[j],
                    ) is Some)
                &&& r is Ok ==> final(node)@ == (NodeView {
                    inputs: Seq::new(
                        old(node)@.inputs.len(),
                        |j: int| if j == 0 {
                            old(node)@.inputs[0]
                        } else {
                            old(self).lifted_input(old(node)@.inputs[j])->0
                        },
                    ),
                    ..old(node)@
                })
                &&& r is Ok ==> forall|x: usize|
                    final(self).nodes_to_remove@.contains(x) <==> (old(self).nodes_to_remove@.contains(x)
                        || exists|j: int|
                        1 <= j < old(node)@.inputs.len() && old(self).lift_source(
                            #[trigger] old(node)@.inputs[j],
                        ) == Some(x))
            } else {
                &&& r is Ok
                &&& final(node)@ == old(node)@
                &&& final(self).nodes_to_remove == old(self).nodes_to_remove
                &&& final(self).constants_map == old(self).constants_map
            },
            match constants_spec(old(self)@, old(node)@, i) {
                Some((b, n)) => r is Ok && final(self)@ == b && final(node)@ == n,
                None => r is Err,
            },
    {
        proof {
            self.lemma_view_lookups();
        }
        if (node.node_type == NodeType::Constant || (node.node_type == NodeType::Identity
            && node.inputs.len() > 0 && node.inputs[0].value.is_some())) && node.outputs.len() > 0 {
            self.constants_map.insert(node.outputs[0].name.clone(), i);
            proof {
                assert(node@.outputs[0] == node.outputs@[0]@);
                let (spec_b, spec_n) = constants_spec(old(self)@, node@, i)->0;
                assert(self@ =~= spec_b);
            }
            return Ok(());
        }
        if !node.node_type.lifts_constants() {
            return Ok(());
        }
        let ghost s0 = *self;
        let ghost n0 = node@;
        let mut j: usize = 1;
        while j < node.inputs.len()
            invariant
                s0 == *old(self),
                n0 == old(node)@,
                !is_constant_source(n0),
                lifts_constants(n0.node_type),
                self.wf(),
                self.nodes == s0.nodes,
                self.node_name_counter == s0.node_name_counter,
                self.identity_idx == s0.identity_idx,
                self.identity_sources == s0.identity_sources,
                self.constants_map == s0.constants_map,
                1 <= j,
                j <= node.inputs@.len() || n0.inputs.len() == 0,
                node.inputs@.len() == n0.inputs.len(),
                node.node_type == n0.node_type,
                node@.name == n0.name,
                node@.outputs == n0.outputs,
                node@.attrs == n0.attrs,
                n0.inputs.len() > 0 ==> node@.inputs[0] == n0.inputs[0],
                forall|m: int| 1 <= m < j && m < n0.inputs.len() ==> s0.lifted_input(#[trigger] n0.inputs[m]) is Some,
                forall|m: int| 1 <= m < j && m < n0.inputs.len() ==> node@.inputs[m] == s0.lifted_input(n0.inputs[m])->0,
                forall|m: int| j <= m < n0.inputs.len() ==> node@.inputs[m] == n0.inputs[m],
                forall|x: usize|
                    #![trigger self.nodes_to_remove@.contains(x)]
                    self.nodes_to_remove@.contains(x) <==> (s0.nodes_to_remove@.contains(x)
                        || exists|m: int|
                        1 <= m < j && m < n0.inputs.len() && s0.lift_source(#[trigger] n0.inputs[m]) == Some(x)),
            decreases n0.inputs.len() - j,
        {
            let ghost nb = node@;
            let ghost rb = self.nodes_to_remove@;
            let ghost cur = n0.inputs[j as int];
            proof {
                assert(nb.inputs[j as int] == n0.inputs[j as int]);
                assert(node.inputs@[j as int]@ == cur);
            }
            match self.constants_map.get(&node.inputs[j].name) {
                Some(ci) => {
                    if ci < self.nodes.len() {
                        let constant = &self.nodes[ci];
                        proof {
                            assert(s0.lift_source(cur) == Some(ci));
                            assert(constant@ == s0.nodes@[ci as int]@);
                        }
                        if constant.inputs.len() > 0 && constant.inputs[0].value.is_some() {
                            proof {
                                assert(constant@.inputs[0] == constant.inputs@[0]@);
                            }
                            node.inputs[j].copy_value(&constant.inputs[0]);
                        } else {
                            proof {
                                if constant@.inputs.len() > 0 {
                                    assert(constant@.inputs[0] == constant.inputs@[0]@);
                                }
                            }
                            match find_constant_value(constant) {
                                Some(arg) => node.inputs[j].copy_value(&arg),
                                None => {
                                    proof {
                                        assert(s0.lifted_input(cur) is None);
                                        assert(1 <= j < n0.inputs.len());
                                        assert(old(node)@.inputs[j as int] == cur);
                                        assert(lifted_input_v(s0@, n0.inputs[j as int]) is None);
                                    }
                                    return Err(BuildError::MissingConstantValue);
                                },
                            }
                        }
                        self.nodes_to_remove.push(ci);
                    }
                },
                None => {},
            }
            proof {
                assert(self.nodes_to_remove@ == rb || (s0.lift_source(cur) is Some
                    && self.nodes_to_remove@ == rb.push(s0.lift_source(cur)->0)));
                assert(s0.lift_source(cur) is None ==> self.nodes_to_remove@ == rb);
                assert(node@.inputs[j as int] == node.inputs@[j as int]@);
                assert(node@.inputs[j as int] == s0.lifted_input(cur)->0);
                assert forall|m: int| 0 <= m < node@.inputs.len() && m != j implies node@.inputs[m] == nb.inputs[m] by {
                    assert(node@.inputs[m] == node.inputs@[m]@);
                }
                assert forall|m: int| 1 <= m < j + 1 && m < n0.inputs.len() implies node@.inputs[m] == s0.lifted_input(n0.inputs[m])->0 by {
                    if m < j {
                        assert(node@.inputs[m] == nb.inputs[m]);
                    }
                }
                assert forall|x: usize|
                    #![trigger self.nodes_to_remove@.contains(x)]
                    self.nodes_to_remove@.contains(x) <==> (s0.nodes_to_remove@.contains(x)
                        || exists|m: int|
                        1 <= m < j + 1 && m < n0.inputs.len() && s0.lift_source(#[trigger] n0.inputs[m]) == Some(x)) by {
                    let now = self.nodes_to_remove@;
                    let hit = s0.lift_source(cur) == Some(x);
                    let ex_old = exists|m: int|
                        1 <= m < j && m < n0.inputs.len() && s0.lift_source(#[trigger] n0.inputs[m]) == Some(x);
                    let ex_new = exists|m: int|
                        1 <= m < j + 1 && m < n0.inputs.len() && s0.lift_source(#[trigger] n0.inputs[m]) == Some(x);
                    if hit {
                        assert(n0.inputs[j as int] == cur);
                        assert(ex_new);
                    }
                    if ex_old {
                        let m = choose|m: int|
                            1 <= m < j && m < n0.inputs.len() && s0.lift_source(#[trigger] n0.inputs[m]) == Some(x);
                        assert(1 <= m < j + 1);
                        assert(ex_new);
                    }
                    if ex_new {
                        let m = choose|m: int|
                            1 <= m < j + 1 && m < n0.inputs.len() && s0.lift_source(#[trigger] n0.inputs[m]) == Some(x);
                        if m < j {
                            assert(ex_old);
                        } else {
                            assert(hit);
                        }
                    }
                    assert(ex_new == (ex_old || hit));
                    assert(rb.contains(x) == (s0.nodes_to_remove@.contains(x) || ex_old));
                    if now.contains(x) {
                        let w = choose|w: int| 0 <= w < now.len() && now[w] == x;
                        if w < rb.len() {
                            assert(rb[w] == x);
                            assert(rb.contains(x));
                        } else {
                            assert(hit);
                        }
                    }
                    if rb.contains(x) {
                        let w = choose|w: int| 0 <= w < rb.len() && rb[w] == x;
                        assert(now[w] == x);
                    }
                    if hit {
                        assert(now[now.len() - 1] == x);
                    }
                }
            }
            j = j + 1;
        }
        proof {
            let (spec_b, spec_n) = constants_spec(s0@, n0, i)->0;
            assert forall|j: int| 1 <= j < n0.inputs.len() implies lifted_input_v(s0@, #[trigger] n0.inputs[j]) is Some by {
                assert(s0.lifted_input(n0.inputs[j]) is Some);
            }
            assert forall|x: usize| self@.to_remove.contains(x) == spec_b.to_remove.contains(x) by {
                if exists|m: int| 1 <= m < n0.inputs.len() && lift_source_v(s0@, #[trigger] n0.inputs[m]) == Some(x) {
                    let m = choose|m: int| 1 <= m < n0.inputs.len() && lift_source_v(s0@, #[trigger] n0.inputs[m]) == Some(x);
                    assert(s0.lift_source(n0.inputs[m]) == Some(x));
                }
                if exists|m: int| 1 <= m < n0.inputs.len() && s0.lift_source(#[trigger] n0.inputs[m]) == Some(x) {
                    let m = choose|m: int| 1 <= m < n0.inputs.len() && s0.lift_source(#[trigger] n0.inputs[m]) == Some(x);
                    assert(lift_source_v(s0@, n0.inputs[m]) == Some(x));
                }
            }
            assert(self@.to_remove =~= spec_b.to_remove);
            assert(self@ =~= spec_b);
            if n0.inputs.len() > 0 {
                assert(node@.inputs =~= Seq::new(
                    n0.inputs.len(),
                    |j: int| if j == 0 {
                        n0.inputs[0]
                    } else {
                        s0.lifted_input(n0.inputs[j])->0
                    },
                ));
            } else {
                assert(node@.inputs =~= Seq::new(
                    n0.inputs.len(),
                    |j: int| if j == 0 {
                        n0.inputs[0]
                    } else {
                        s0.lifted_input(n0.inputs[j])->0
                    },
                ));
            }
            assert forall|m: int| 1 <= m < n0.inputs.len() implies lifted_input_v(s0@, n0.inputs[m]) == s0.lifted_input(n0.inputs[m]) by {}
            assert(node@.inputs =~= spec_n.inputs);
            assert(node@ =~= spec_n);
        }
        Ok(())
    }

    /// Rewrites an Unsqueeze node whose axes are not a literal and whose output is a graph
    /// input or output into a Reshape to that boundary's shape. An output that is a prior
    /// node's output sends the check of topological order.
    fn handle_unsqueeze(&self, node: &mut Node, graph_io: &OnnxGraphIO, raw: &Vec<NodeProto>) -> (r: Result<(), BuildError>)
        requires
            graph_io.wf(),
        ensures
            if unsqueeze_candidate(old(node)@) {
                match entry_of(graph_io@, old(node)@.outputs[0].name) {
                    Some(IOEntry::In(i)) => r is Ok && final(node)@ == reshape_of(
                        old(node)@,
                        graph_io@.inputs[i as int],
                    ),
                    Some(IOEntry::Out(i)) => r is Ok && final(node)@ == reshape_of(
                        old(node)@,
                        graph_io@.outputs[i as int],
                    ),
                    Some(IOEntry::Node(_)) => r == Err::<(), BuildError>(refusal_error(raw@)),
                    None => r is Ok && final(node)@ == old(node)@,
                }
            } else {
                r is Ok && final(node)@ == old(node)@
            },
            match unsqueeze_spec(old(node)@, graph_io@, raw@) {
                Ok(n) => r is Ok && final(node)@ == n,
                Err(e) => r == Err::<(), BuildError>(e),
            },
    {
        if node.node_type == NodeType::Unsqueeze && node.inputs.len() > 1 && node.inputs[1].value.is_none()
            && node.outputs.len() > 0 {
            proof {
                assert(node@.inputs[1] == node.inputs@[1]@);
                assert(node@.outputs[0] == node.outputs@[0]@);
            }
            match graph_io.get_node_output(&node.outputs[0].name) {
                Ok(Some(out_arg)) => {
                    remap_unsqueeze_to_reshape(node, &out_arg);
                },
                Ok(None) => {},
                Err(_) => {
                    if !is_top_sorted(raw) {
                        return Err(BuildError::NotTopologicallySorted);
                    }
                    return Err(BuildError::InvalidGraph);
                },
            }
        } else {
            proof {
                if node@.inputs.len() > 1 {
                    assert(node@.inputs[1] == node.inputs@[1]@);
                }
            }
        }
        Ok(())
    }

    /// The invariant of the walk over the nodes of `m`, after the first `i` of them.
    closed spec fn loop_inv(&self, io: GraphIOView, m: ModelProto, i: nat) -> bool {
        let kinds = kinds_of(m.nodes@);
        &&& self.wf()
        &&& top_sorted(m.nodes@)
        &&& i <= m.nodes@.len()
        &&& self.nodes@.len() == i
        &&& pipeline(m, i) == Ok::<(BuilderView, GraphIOView), BuildError>((self@, io))
        &&& forall|t: NodeType|
            #[trigger] self.node_name_counter@[node_type_index(t) as int] == count_kind(kinds, t, i as int)
        &&& forall|j: int| 0 <= j < i ==> node_law(#[trigger] self.nodes@[j]@, m.nodes@, j)
        &&& ins_declared(io, names_of(args_view(m.inputs@)))
        &&& m.inputs@.len() < usize::MAX
        &&& forall|q: int|
            0 <= q < i && is_elided_identity(#[trigger] self.nodes@[q]@)
                ==> self.nodes_to_remove@.contains(q as usize)
        &&& io.initializers == args_view(m.initializers@)
        &&& io.inputs.len() == m.inputs@.len()
        &&& forall|q: int|
            0 <= q < m.inputs@.len() ==> (#[trigger] io.inputs[q]).name == input_name(q as nat) && (
            find_named(args_view(m.initializers@), m.inputs@[q].name@) is Some ==> !io.inputs[q].passed)
    }

    /// Runs the pipeline on the node at index `i` of the model and adds it to the builder.
    #[verifier::rlimit(100)]
    #[verifier::spinoff_prover]
    fn process_node(&mut self, i: usize, graph_io: &mut OnnxGraphIO, model: &ModelProto) -> (r: Result<(), BuildError>)
        requires
            i < model.nodes@.len(),
            old(graph_io).wf(),
            old(self).loop_inv(old(graph_io)@, *model, i as nat),
        ensures
            match node_step(old(self)@, old(graph_io)@, model.nodes@[i as int], i, model.nodes@) {
                Ok((b, io)) => {
                    &&& r is Ok
                    &&& final(self)@ == b
                    &&& final(graph_io)@ == io
                    &&& final(graph_io).wf()
                    &&& final(self).loop_inv(final(graph_io)@, *model, (i + 1) as nat)
                },
                Err(e) => r == Err::<(), BuildError>(e),
            },
    {
        let ghost kinds = kinds_of(model.nodes@);
        let ghost b0 = self@;
        let ghost io0 = graph_io@;
        let _count = model.nodes.len();
        let proto = &model.nodes[i];
        let ghost k = proto.node_type;
        proof {
            assert(kinds[i as int] == k);
            lemma_count_kind_bound(kinds, k, i as int);
        }
        let mut node = match convert_node(proto, graph_io) {
            Ok(n) => n,
            Err(e) => {
                return Err(e);
            },
        };
        let ghost n0 = node@;
        proof {
            assert(node@.outputs.len() == proto.outputs@.len());
            assert(model.nodes@[i as int] == *proto);
        }
        self.handle_node_renaming(&mut node);
        let ghost named = node@;
        let ghost b1 = self@;
        proof {
            assert(named.name == node_name(k, count_kind(kinds, k, i + 1)));
            assert forall|t: NodeType|
                #[trigger] self.node_name_counter@[node_type_index(t) as int] == count_kind(
                    kinds,
                    t,
                    i + 1,
                ) by {
                lemma_node_type_index_inverse(t);
                lemma_node_type_index_inverse(k);
                if t != k {
                    assert(node_type_index(t) != node_type_index(k));
                }
            }
        }
        let ghost rem0 = self.nodes_to_remove@;
        self.handle_identity(&mut node, i);
        let ghost rem1 = self.nodes_to_remove@;
        proof {
            assert forall|x: usize| rem0.contains(x) implies rem1.contains(x) by {
                if is_elided_identity(named) {
                    let w = choose|w: int| 0 <= w < rem0.len() && rem0[w] == x;
                    assert(rem1[w] == x);
                }
            }
            if is_elided_identity(named) {
                assert(rem1[rem1.len() - 1] == i);
            }
        }
        let ghost sb = *self;
        let ghost nb = node@;
        proof {
            assert(nb.attrs == crate::ir::attrs_view(proto.attrs@));
        }
        match self.check_constants(&mut node, i) {
            Ok(_) => {},
            Err(e) => {
                return Err(e);
            },
        }
                    let ghost b3 = self@;
        let ghost before_unsqueeze = node@;
        proof {
            assert(before_unsqueeze.name == named.name);
            assert(before_unsqueeze.outputs.len() == named.outputs.len());
            assert(before_unsqueeze.node_type == k);
        }
        match self.handle_unsqueeze(&mut node, graph_io, &model.nodes) {
            Ok(_) => {},
            Err(e) => {
                return Err(e);
            },
        }
        let ghost after_unsqueeze = node@;
        proof {
            assert(after_unsqueeze.name == named.name);
            assert(after_unsqueeze.outputs.len() == named.outputs.len());
            assert(renames_first_output_only(after_unsqueeze.node_type) == renames_first_output_only(k));
        }
        let ghost io_before = graph_io@;
        graph_io.update_tensor_output(&node.outputs);
        proof {
            crate::graph_io::lemma_after_outputs_keeps_inputs(
                io_before,
                args_view(node.outputs@),
                names_of(args_view(model.inputs@)),
            );
        }
        let ghost io_rename = graph_io@;
        match rename_io(&mut node, graph_io, &model.nodes) {
            Ok(_) => {},
            Err(e) => {
                return Err(e);
            },
        }
        proof {
            lemma_inputs_keep_flags(io_rename, graph_io@, *model);
            assert(node@.outputs == renamed_outputs(after_unsqueeze));
            assert(node_law(node@, model.nodes@, i as int));
        }
        proof {
            assert forall|x: usize| rem1.contains(x) implies self.nodes_to_remove@.contains(x) by {
                if !is_constant_source(nb) && lifts_constants(nb.node_type) {
                    assert(self.nodes_to_remove@.contains(x));
                }
            }
            if is_elided_identity(node@) {
                assert(k is Identity);
                if !is_elided_identity(named) {
                    assert(named.inputs[0].value is Some);
                    assert(nb.inputs[0] == renamed(named.inputs[0], sb.pass_through(named.inputs[0].name)));
                    assert(is_constant_source(nb));
                    assert(after_unsqueeze == nb);
                    assert(node@.inputs[0] == answered_input(
                        after_unsqueeze.inputs[0],
                        new_name_answer(io_rename, after_unsqueeze.inputs[0].name),
                    ));
                    assert(false);
                }
                assert(self.nodes_to_remove@.contains(i));
            }
        }
        let ghost nodes_before = self.nodes@;
        let ghost n6 = node@;
        self.nodes.push(node);
        proof {
            assert forall|q: int|
                0 <= q < i + 1 && is_elided_identity(#[trigger] self.nodes@[q]@)
                    implies self.nodes_to_remove@.contains(q as usize) by {
                if q < i {
                    assert(self.nodes@[q] == nodes_before[q]);
                    assert(rem0.contains(q as usize));
                }
            }
            assert forall|j: int| 0 <= j < i + 1 implies node_law(#[trigger] self.nodes@[j]@, model.nodes@, j) by {
            }
            assert(self@.nodes =~= b3.nodes.push(n6));
            assert(self@ =~= (BuilderView { nodes: b3.nodes.push(n6), ..b3 }));
            assert(pipeline(*model, (i + 1) as nat) == node_step(b0, io0, model.nodes@[i as int], i, model.nodes@));
        }
        Ok(())
    }

    /// Checks that the nodes of `model` are in topological order, then processes them in
    /// file order and assembles the final graph: node inputs resolved against the registry,
    /// nodes renamed, Identity nodes elided, constants lifted, Unsqueeze nodes rewritten,
    /// outputs propagated and renamed; then removed nodes and unused graph inputs and
    /// outputs are dropped. A registry refusal ends the build. The output types of each
    /// node are taken as the model declares them.
    pub fn build(&mut self, model: &ModelProto) -> (r: Result<OnnxGraph, BuildError>)
        requires
            old(self).fresh(),
            model.inputs@.len() < usize::MAX,
        ensures
            build_outcome(*model, r),
    {
        if !is_top_sorted(&model.nodes) {
            return Err(BuildError::NotTopologicallySorted);
        }
        let mut graph_io = OnnxGraphIO::new(&model.inputs, &model.outputs, &model.initializers);
        proof {
            let init = initial_io(*model);
            assert(graph_io@.inputs =~= init.inputs);
            assert(graph_io@.outputs =~= init.outputs);
            assert(graph_io@.initializers =~= init.initializers);
            assert(graph_io@.node_out =~= init.node_out);
            assert(graph_io@.keys =~= init.keys);
            assert(graph_io@.entries =~= init.entries);
            assert(graph_io@ =~= init);
            let fb = fresh_builder();
            assert(self@.counters =~= fb.counters);
            assert(self@.to_remove =~= fb.to_remove);
            assert(self@.nodes =~= fb.nodes);
            assert(self@.const_keys =~= fb.const_keys);
            assert(self@.const_vals =~= fb.const_vals);
            assert(self@.id_keys =~= fb.id_keys);
            assert(self@.id_vals =~= fb.id_vals);
            assert(self@.id_sources =~= fb.id_sources);
            assert(self@ =~= fb);
            assert forall|t: NodeType|
                #[trigger] self.node_name_counter@[node_type_index(t) as int] == count_kind(
                    kinds_of(model.nodes@),
                    t,
                    0,
                ) by {
                assert(node_type_index(t) < NODE_TYPE_COUNT);
            }
        }
        let mut i: usize = 0;
        while i < model.nodes.len()
            invariant
                graph_io.wf(),
                self.loop_inv(graph_io@, *model, i as nat),
            decreases model.nodes@.len() - i,
        {
            match self.process_node(i, &mut graph_io, model) {
                Ok(_) => {},
                Err(e) => {
                    proof {
                        lemma_pipeline_err_persists(*model, (i + 1) as nat, model.nodes@.len());
                    }
                    return Err(e);
                },
            }
            i = i + 1;
        }
        let ghost all = self.nodes@;
        let ghost b_end = self@;
        let n = self.nodes.len();
        proof {
            assert(self.loop_inv(graph_io@, *model, n as nat));
        }
        let mut kept: Vec<Node> = Vec::new();
        let ghost mut kept_idx: Seq<int> = Seq::empty();
        let mut j: usize = 0;
        while j < n
            invariant
                n == all.len(),
                all.len() == model.nodes@.len(),
                j <= n,
                self.nodes@ == all.subrange(j as int, n as int),
                forall|q: int| 0 <= q < n ==> node_law(#[trigger] all[q]@, model.nodes@, q),
                names_follow_kinds(nodes_view(kept@), model.nodes@, kept_idx),
                forall|p: int| 0 <= p < kept_idx.len() ==> #[trigger] kept_idx[p] < j,
                forall|q: int|
                    0 <= q < n && is_elided_identity(#[trigger] all[q]@) ==> self.nodes_to_remove@.contains(
                        q as usize,
                    ),
                forall|p: int| 0 <= p < kept@.len() ==> !is_elided_identity(#[trigger] kept@[p]@),
                b_end.nodes == nodes_view(all),
                b_end.to_remove == self.nodes_to_remove@.to_set(),
                nodes_view(kept@) == kept_nodes(b_end.nodes, b_end.to_remove, j as nat),
            decreases n - j,
        {
            let node = self.nodes.remove(0);
            proof {
                assert(node == all[j as int]);
                assert(self.nodes@ =~= all.subrange(j + 1, n as int));
            }
            let ghost kv = nodes_view(kept@);
            proof {
                assert(nodes_view(all)[j as int] == all[j as int]@);
            }
            if !contains_index(&self.nodes_to_remove, j) {
                let ghost prev = kept@;
                kept.push(node);
                proof {
                    kept_idx = kept_idx.push(j as int);
                    assert(nodes_view(kept@) =~= nodes_view(prev).push(all[j as int]@));
                    assert forall|p: int| 0 <= p < kept_idx.len() implies node_law(#[trigger] nodes_view(kept@)[p], model.nodes@, kept_idx[p]) by {
                        if p < prev.len() {
                            assert(nodes_view(kept@)[p] == nodes_view(prev)[p]);
                        }
                    }
                    assert forall|p: int| 0 <= p < kept@.len() implies !is_elided_identity(#[trigger] kept@[p]@) by {
                        if p < prev.len() {
                            assert(kept@[p] == prev[p]);
                        }
                    }
                }
            }
            j = j + 1;
        }
        let mut inputs = crate::graph_io::duplicate_args(&graph_io.inputs);
        let mut outputs = crate::graph_io::duplicate_args(&graph_io.outputs);
        remove_unused_graph_inputs(&mut inputs, &mut outputs);
        proof {
            lemma_passed_only_all_passed(args_view(graph_io.inputs@));
            lemma_passed_only_all_passed(args_view(graph_io.outputs@));
            lemma_passed_only_members(args_view(graph_io.inputs@));
            assert forall|p: int| 0 <= p < inputs@.len() implies exists|i: int|
                #![trigger model.inputs@[i]]
                0 <= i < model.inputs@.len() && (#[trigger] inputs@[p]).name@ == input_name(i as nat)
                    && find_named(args_view(model.initializers@), model.inputs@[i].name@) is None by {
                let s = args_view(graph_io.inputs@);
                assert(args_view(inputs@)[p] == inputs@[p]@);
                let i = choose|i: int| #![trigger s[i]] 0 <= i < s.len() && passed_only(s)[p] == s[i] && s[i].passed;
                assert(graph_io@.inputs[i].name == input_name(i as nat));
            }
            assert forall|p: int| 0 <= p < inputs@.len() implies (#[trigger] inputs@[p]).passed by {
                assert(args_view(inputs@)[p] == inputs@[p]@);
            }
            assert forall|p: int| 0 <= p < outputs@.len() implies (#[trigger] outputs@[p]).passed by {
                assert(args_view(outputs@)[p] == outputs@[p]@);
            }
        }
        let g = OnnxGraph { nodes: kept, inputs, outputs };
        proof {
            assert(pipeline(*model, model.nodes@.len()) == Ok::<(BuilderView, GraphIOView), BuildError>((b_end, graph_io@)));
            assert(b_end.nodes.len() == n);
            assert(nodes_view(g.nodes@) == kept_nodes(b_end.nodes, b_end.to_remove, b_end.nodes.len()));
            assert(names_follow_kinds(nodes_view(g.nodes@), model.nodes@, kept_idx));
            assert(forall|p: int| 0 <= p < g.inputs@.len() ==> (#[trigger] g.inputs@[p]).passed);
            assert(forall|p: int| 0 <= p < g.outputs@.len() ==> (#[trigger] g.outputs@[p]).passed);
        }
        Ok(g)
    }
}

} // verus!

verus! {

/// Turns a decoded model into the graph: see [`ONNXGraphBuilder::build`].
pub fn parse_onnx(model: &ModelProto) -> (r: Result<OnnxGraph, BuildError>)
    requires
        model.inputs@.len() < usize::MAX,
    ensures
        build_outcome(*model, r),
{
    let mut builder = ONNXGraphBuilder::new();
    builder.build(model)
}

} // verus!

verus! {

/// Pruning is idempotent: dropping the unused arguments of a list that has already been
/// pruned leaves it as it is.
pub proof fn lemma_prune_idempotent(s: Seq<ArgumentView>)
    ensures
        passed_only(passed_only(s)) == passed_only(s),
    decreases s.len(),
{
    if s.len() > 0 {
        lemma_prune_idempotent(s.drop_last());
        let t = passed_only(s.drop_last());
        if s.last().passed {
            assert(t.push(s.last()).drop_last() =~= t);
        }
    }
}

/// Names depend only on operator kinds, order of appearance and output positions: two
/// models with the same sequence of kinds, whose node at index `q` declares as many
/// outputs in both, give that node the same name and the same renamed outputs in both.
pub proof fn lemma_naming_determinism(
    raw1: Seq<NodeProto>,
    raw2: Seq<NodeProto>,
    n1: NodeView,
    n2: NodeView,
    q: int,
)
    requires
        0 <= q < raw1.len(),
        kinds_of(raw1) == kinds_of(raw2),
        raw1[q].outputs@.len() == raw2[q].outputs@.len(),
        node_law(n1, raw1, q),
        node_law(n2, raw2, q),
    ensures
        n1.name == n2.name,
        n1.outputs.len() == n2.outputs.len(),
        renames_first_output_only(kinds_of(raw1)[q]) ==> (n1.outputs.len() > 0
            ==> n1.outputs[0].name == n2.outputs[0].name),
        !renames_first_output_only(kinds_of(raw1)[q]) ==> forall|k: int|
            0 <= k < n1.outputs.len() ==> #[trigger] n1.outputs[k].name == n2.outputs[k].name,
{
    assert(raw2.len() == kinds_of(raw2).len());
    if !renames_first_output_only(kinds_of(raw1)[q]) {
        assert forall|k: int| 0 <= k < n1.outputs.len() implies #[trigger] n1.outputs[k].name
            == n2.outputs[k].name by {
            assert(n1.outputs[k].name == output_name(n1.name, k as nat));
            assert(n2.outputs[k].name == output_name(n2.name, k as nat));
        }
    }
}

} // verus!

verus! {

/// Counting over a longer prefix never gives less.
pub proof fn lemma_count_kind_monotone(types: Seq<NodeType>, t: NodeType, a: int, b: int)
    requires
        0 <= a <= b,
    ensures
        count_kind(types, t, a) <= count_kind(types, t, b),
    decreases b - a,
{
    if a < b {
        lemma_count_kind_monotone(types, t, a, b - 1);
    }
}

/// The name of the node at index `q` of the model: the tag of its kind, then the decimal
/// count of the nodes of that kind up to it, which is at least one.
proof fn lemma_node_name_shape(n: NodeView, raw: Seq<NodeProto>, q: int)
    requires
        0 <= q < raw.len(),
        node_law(n, raw, q),
    ensures
        forall|i: int| 0 <= i < n.name.len() ==> #[trigger] n.name[i] != '_',
{
    let kinds = kinds_of(raw);
    let t = kinds[q];
    crate::naming::lemma_tag_facts(t);
    crate::naming::lemma_decimal_digits(count_kind(kinds, t, q + 1));
    let tag = node_type_tag(t);
    let d = decimal(count_kind(kinds, t, q + 1));
    assert forall|i: int| 0 <= i < n.name.len() implies #[trigger] n.name[i] != '_' by {
        if i < tag.len() {
            assert(n.name[i] == tag[i]);
        } else {
            assert(n.name[i] == d[i - tag.len()]);
        }
    }
}

/// Two kept nodes at different positions have different names.
proof fn lemma_two_names_differ(nodes: Seq<NodeView>, raw: Seq<NodeProto>, kept: Seq<int>, p1: int, p2: int)
    requires
        names_follow_kinds(nodes, raw, kept),
        0 <= p1 < p2 < nodes.len(),
    ensures
        nodes[p1].name != nodes[p2].name,
{
    let kinds = kinds_of(raw);
    let q1 = kept[p1];
    let q2 = kept[p2];
    assert(node_law(nodes[p1], raw, q1));
    assert(node_law(nodes[p2], raw, q2));
    let t1 = kinds[q1];
    let t2 = kinds[q2];
    let c1 = count_kind(kinds, t1, q1 + 1);
    let c2 = count_kind(kinds, t2, q2 + 1);
    if nodes[p1].name == nodes[p2].name {
        crate::naming::lemma_tag_facts(t1);
        crate::naming::lemma_tag_facts(t2);
        crate::naming::lemma_decimal_digits(c1);
        crate::naming::lemma_decimal_digits(c2);
        crate::naming::lemma_split_at_digits(node_type_tag(t1), decimal(c1), node_type_tag(t2), decimal(c2));
        crate::naming::lemma_tag_injective(t1, t2);
        crate::naming::lemma_decimal_injective(c1, c2);
        lemma_count_kind_monotone(kinds, t1, q1 + 1, q2);
        assert(false);
    }
}

/// Names in a built graph are unique: no two nodes share a name, and no two node outputs
/// share a name, as long as each Constant and Identity node of the model declares at most
/// one output (those nodes rename their first output only).
pub proof fn lemma_names_unique(nodes: Seq<NodeView>, raw: Seq<NodeProto>, kept: Seq<int>)
    requires
        names_follow_kinds(nodes, raw, kept),
        forall|q: int|
            0 <= q < raw.len() && renames_first_output_only(#[trigger] raw[q].node_type)
                ==> raw[q].outputs@.len() <= 1,
    ensures
        forall|p1: int, p2: int|
            0 <= p1 < nodes.len() && 0 <= p2 < nodes.len() && p1 != p2 ==> #[trigger] nodes[p1].name
                != #[trigger] nodes[p2].name,
        forall|p1: int, k1: int, p2: int, k2: int|
            0 <= p1 < nodes.len() && 0 <= p2 < nodes.len() && 0 <= k1 < nodes[p1].outputs.len() && 0
                <= k2 < nodes[p2].outputs.len() && (p1 != p2 || k1 != k2) ==> #[trigger] nodes[p1].outputs[k1].name
                != #[trigger] nodes[p2].outputs[k2].name,
{
    assert forall|p1: int, p2: int|
        0 <= p1 < nodes.len() && 0 <= p2 < nodes.len() && p1 != p2 implies #[trigger] nodes[p1].name
            != #[trigger] nodes[p2].name by {
        if p1 < p2 {
            lemma_two_names_differ(nodes, raw, kept, p1, p2);
        } else {
            lemma_two_names_differ(nodes, raw, kept, p2, p1);
        }
    }
    assert forall|p1: int, k1: int, p2: int, k2: int|
        0 <= p1 < nodes.len() && 0 <= p2 < nodes.len() && 0 <= k1 < nodes[p1].outputs.len() && 0
            <= k2 < nodes[p2].outputs.len() && (p1 != p2 || k1 != k2) implies #[trigger] nodes[p1].outputs[k1].name
            != #[trigger] nodes[p2].outputs[k2].name by {
        let n1 = nodes[p1];
        let n2 = nodes[p2];
        let q1 = kept[p1];
        let q2 = kept[p2];
        assert(node_law(n1, raw, q1));
        assert(node_law(n2, raw, q2));
        assert(kinds_of(raw)[q1] == raw[q1].node_type);
        assert(kinds_of(raw)[q2] == raw[q2].node_type);
        assert(n1.outputs[k1].name == output_name(n1.name, k1 as nat));
        assert(n2.outputs[k2].name == output_name(n2.name, k2 as nat));
        if n1.outputs[k1].name == n2.outputs[k2].name {
            lemma_node_name_shape(n1, raw, q1);
            lemma_node_name_shape(n2, raw, q2);
            reveal_strlit("_out");
            let r1 = "_out"@ + decimal(k1 as nat + 1);
            let r2 = "_out"@ + decimal(k2 as nat + 1);
            assert(output_name(n1.name, k1 as nat) =~= n1.name + r1);
            assert(output_name(n2.name, k2 as nat) =~= n2.name + r2);
            crate::naming::lemma_split_at_underscore(n1.name, r1, n2.name, r2);
            assert(decimal(k1 as nat + 1) =~= r1.skip(4));
            assert(decimal(k2 as nat + 1) =~= r2.skip(4));
            crate::naming::lemma_decimal_injective(k1 as nat + 1, k2 as nat + 1);
            if p1 != p2 {
                assert(nodes[p1].name != nodes[p2].name);
            }
        }
    }
}

} // verus!

verus! {

/// Different positions give different graph input names.
pub proof fn lemma_input_name_injective(i: nat, j: nat)
    requires
        input_name(i) == input_name(j),
    ensures
        i == j,
{
    reveal_strlit("input");
    assert(decimal(i + 1) =~= input_name(i).skip(5));
    assert(decimal(j + 1) =~= input_name(j).skip(5));
    crate::naming::lemma_decimal_injective(i + 1, j + 1);
}

/// A graph input that has an initializer of its name is never marked in use while the graph
/// is built: it is absent from the pruned inputs, whether or not a node consumes it.
pub proof fn lemma_initialized_input_pruned(model: ModelProto, g: OnnxGraph, i: int)
    requires
        build_outcome(model, Ok(g)),
        0 <= i < model.inputs@.len(),
        find_named(args_view(model.initializers@), model.inputs@[i].name@) is Some,
    ensures
        forall|p: int| 0 <= p < g.inputs@.len() ==> #[trigger] g.inputs@[p].name@ != input_name(i as nat),
{
    assert forall|p: int| 0 <= p < g.inputs@.len() implies #[trigger] g.inputs@[p].name@ != input_name(i as nat) by {
        let j = choose|j: int|
            #![trigger model.inputs@[j]]
            0 <= j < model.inputs@.len() && g.inputs@[p].name@ == input_name(j as nat)
                && find_named(args_view(model.initializers@), model.inputs@[j].name@) is None;
        if g.inputs@[p].name@ == input_name(i as nat) {
            lemma_input_name_injective(i as nat, j as nat);
        }
    }
}

} // verus!

verus! {

/// The state of the builder between two nodes.
pub ghost struct BuilderView {
    /// The nodes processed so far, removed ones included.
    pub nodes: Seq<NodeView>,
    /// For each operator kind, by position, how many nodes of that kind were named.
    pub counters: Seq<usize>,
    /// Indices of the nodes to remove.
    pub to_remove: Set<usize>,
    /// Output names of constant sources, and their node indices.
    pub const_keys: Seq<Seq<char>>,
    pub const_vals: Seq<usize>,
    /// Output names of elided Identity nodes, and the indices of their sources.
    pub id_keys: Seq<Seq<char>>,
    pub id_vals: Seq<usize>,
    /// The names that elided Identity nodes pass through.
    pub id_sources: Seq<Seq<char>>,
}

/// The value that `k` maps to in a table of keys and values (the last entry wins).
pub open spec fn lookup_in(keys: Seq<Seq<char>>, vals: Seq<usize>, k: Seq<char>) -> Option<usize> {
    let i = last_match(keys, k, keys.len() as int);
    if i < 0 {
        None
    } else {
        Some(vals[i])
    }
}

/// A builder that has processed no node.
pub open spec fn fresh_builder() -> BuilderView {
    BuilderView {
        nodes: Seq::empty(),
        counters: Seq::new(NODE_TYPE_COUNT as nat, |t: int| 0usize),
        to_remove: Set::empty(),
        const_keys: Seq::empty(),
        const_vals: Seq::empty(),
        id_keys: Seq::empty(),
        id_vals: Seq::empty(),
        id_sources: Seq::empty(),
    }
}

/// The name `k` takes once elided Identity nodes are passed through.
pub open spec fn pass_through_v(b: BuilderView, k: Seq<char>) -> Seq<char> {
    match lookup_in(b.id_keys, b.id_vals, k) {
        Some(idx) => if idx < b.id_sources.len() {
            b.id_sources[idx as int]
        } else {
            k
        },
        None => k,
    }
}

/// The index of the processed constant node whose output an input names.
pub open spec fn lift_source_v(b: BuilderView, a: ArgumentView) -> Option<usize> {
    match lookup_in(b.const_keys, b.const_vals, a.name) {
        Some(ci) => if ci < b.nodes.len() {
            Some(ci)
        } else {
            None
        },
        None => None,
    }
}

/// An input after constant lifting; `None` where the constant holds no value.
pub open spec fn lifted_input_v(b: BuilderView, a: ArgumentView) -> Option<ArgumentView> {
    match lift_source_v(b, a) {
        Some(ci) => {
            let c = b.nodes[ci as int];
            if c.inputs.len() > 0 && c.inputs[0].value is Some {
                Some(with_value_of(a, c.inputs[0]))
            } else {
                match constant_value(c) {
                    Some(v) => Some(with_value_of(a, v)),
                    None => None,
                }
            }
        },
        None => Some(a),
    }
}

/// A raw node with its inputs resolved against the registry; `None` where one of them is
/// a graph output.
pub open spec fn convert_spec(io: GraphIOView, p: NodeProto) -> Option<NodeView> {
    if forall|j: int| 0 <= j < p.inputs@.len() ==> resolved_input(io, #[trigger] p.inputs@[j]@) is Some {
        Some(
            NodeView {
                node_type: p.node_type,
                name: p.name@,
                inputs: Seq::new(p.inputs@.len(), |j: int| resolved_input(io, p.inputs@[j]@)->0),
                outputs: args_view(p.outputs@),
                attrs: crate::ir::attrs_view(p.attrs@),
            },
        )
    } else {
        None
    }
}

/// The builder after naming a node of kind `t`.
pub open spec fn counted(b: BuilderView, t: NodeType) -> BuilderView {
    BuilderView {
        counters: b.counters.update(
            node_type_index(t) as int,
            (b.counters[node_type_index(t) as int] + 1) as usize,
        ),
        ..b
    }
}

/// A node under its final name.
pub open spec fn named_node(b: BuilderView, n: NodeView) -> NodeView {
    NodeView {
        name: node_name(n.node_type, (b.counters[node_type_index(n.node_type) as int] + 1) as nat),
        ..n
    }
}

/// The builder after the Identity stage.
pub open spec fn identity_b(b: BuilderView, n: NodeView, i: usize) -> BuilderView {
    if is_elided_identity(n) {
        BuilderView {
            to_remove: b.to_remove.insert(i),
            id_keys: b.id_keys.push(n.outputs[0].name),
            id_vals: b.id_vals.push(b.id_sources.len() as usize),
            id_sources: b.id_sources.push(pass_through_v(b, n.inputs[0].name)),
            ..b
        }
    } else {
        b
    }
}

/// The node after the Identity stage.
pub open spec fn identity_n(b: BuilderView, n: NodeView) -> NodeView {
    if is_elided_identity(n) {
        n
    } else {
        NodeView {
            inputs: Seq::new(
                n.inputs.len(),
                |j: int| renamed(n.inputs[j], pass_through_v(b, n.inputs[j].name)),
            ),
            ..n
        }
    }
}

/// The builder and node after the constant stage; `None` where a lifted constant holds no
/// value.
pub open spec fn constants_spec(b: BuilderView, n: NodeView, i: usize) -> Option<(BuilderView, NodeView)> {
    if is_constant_source(n) {
        Some(
            (
                BuilderView {
                    const_keys: b.const_keys.push(n.outputs[0].name),
                    const_vals: b.const_vals.push(i),
                    ..b
                },
                n,
            ),
        )
    } else if lifts_constants(n.node_type) {
        if forall|j: int| 1 <= j < n.inputs.len() ==> lifted_input_v(b, #[trigger] n.inputs[j]) is Some {
            Some(
                (
                    BuilderView {
                        to_remove: b.to_remove + Set::new(
                            |x: usize|
                                exists|j: int|
                                    1 <= j < n.inputs.len() && lift_source_v(b, #[trigger] n.inputs[j])
                                        == Some(x),
                        ),
                        ..b
                    },
                    NodeView {
                        inputs: Seq::new(
                            n.inputs.len(),
                            |j: int| if j == 0 {
                                n.inputs[0]
                            } else {
                                lifted_input_v(b, n.inputs[j])->0
                            },
                        ),
                        ..n
                    },
                ),
            )
        } else {
            None
        }
    } else {
        Some((b, n))
    }
}

/// The node after the Unsqueeze stage.
pub open spec fn unsqueeze_spec(n: NodeView, io: GraphIOView, raw: Seq<NodeProto>) -> Result<NodeView, BuildError> {
    if unsqueeze_candidate(n) {
        match entry_of(io, n.outputs[0].name) {
            Some(IOEntry::In(i)) => Ok(reshape_of(n, io.inputs[i as int])),
            Some(IOEntry::Out(i)) => Ok(reshape_of(n, io.outputs[i as int])),
            Some(IOEntry::Node(_)) => Err(refusal_error(raw)),
            None => Ok(n),
        }
    } else {
        Ok(n)
    }
}

/// The registry once the inputs of `n` have been resolved: each graph input that one of
/// them names, and that no initializer names, is in use.
pub open spec fn marked_io(io: GraphIOView, n: NodeView) -> GraphIOView {
    marked_upto(io, n, n.inputs.len() as int)
}

/// Whether `k` resolves to the graph input at index `m`.
pub open spec fn resolves_to_input(io: GraphIOView, k: Seq<char>, m: int) -> bool {
    match entry_of(io, k) {
        Some(IOEntry::In(x)) => x as int == m,
        _ => false,
    }
}

/// The registry once the first `upto` inputs of `n` have been resolved.
pub open spec fn marked_upto(io: GraphIOView, n: NodeView, upto: int) -> GraphIOView {
    GraphIOView {
        inputs: Seq::new(
            io.inputs.len(),
            |m: int|
                if exists|j: int|
                    0 <= j < upto && resolves_to_input(io, #[trigger] n.inputs[j].name, m)
                        && initializer_of(io, n.inputs[j].name) is None {
                    ArgumentView { passed: true, ..io.inputs[m] }
                } else {
                    io.inputs[m]
                },
        ),
        ..io
    }
}

/// The registry after renaming the slot that `name` resolves to, if it is a graph output
/// or a node output.
pub open spec fn update_name_spec(io: GraphIOView, name: Seq<char>, new_name: Seq<char>) -> GraphIOView {
    match entry_of(io, name) {
        Some(IOEntry::Out(i)) => GraphIOView {
            outputs: io.outputs.update(i as int, renamed(io.outputs[i as int], new_name)),
            ..io
        },
        Some(IOEntry::Node(i)) => GraphIOView {
            node_out: io.node_out.update(i as int, renamed(io.node_out[i as int], new_name)),
            ..io
        },
        _ => io,
    }
}

/// The registry after the first `k` outputs of `n` were renamed after the node.
pub open spec fn renamed_outputs_io(io: GraphIOView, n: NodeView, k: nat) -> GraphIOView
    decreases k,
{
    if k == 0 {
        io
    } else {
        update_name_spec(
            renamed_outputs_io(io, n, (k - 1) as nat),
            n.outputs[k - 1].name,
            output_name(n.name, (k - 1) as nat),
        )
    }
}

/// The registry after the outputs of `n` were named after it.
pub open spec fn outputs_io(io: GraphIOView, n: NodeView) -> GraphIOView {
    if renames_first_output_only(n.node_type) {
        if n.outputs.len() > 0 {
            crate::graph_io::insert_spec(io, n.outputs[0], output_name(n.name, 0))
        } else {
            io
        }
    } else {
        renamed_outputs_io(io, n, n.outputs.len())
    }
}

/// The node and registry after `rename_io`; an error where an input names a graph output.
pub open spec fn rename_io_spec(n: NodeView, io: GraphIOView, raw: Seq<NodeProto>) -> Result<(NodeView, GraphIOView), BuildError> {
    if forall|j: int| 0 <= j < n.inputs.len() ==> new_name_answer(io, #[trigger] n.inputs[j].name) is Ok {
        Ok(
            (
                NodeView {
                    inputs: Seq::new(
                        n.inputs.len(),
                        |j: int| answered_input(n.inputs[j], new_name_answer(io, n.inputs[j].name)),
                    ),
                    outputs: renamed_outputs(n),
                    ..n
                },
                outputs_io(marked_io(io, n), n),
            ),
        )
    } else {
        Err(refusal_error(raw))
    }
}

/// Processing the raw node `p`, at index `i` of the model `raw`, from the given builder and
/// registry.
pub open spec fn node_step(
    b: BuilderView,
    io: GraphIOView,
    p: NodeProto,
    i: usize,
    raw: Seq<NodeProto>,
) -> Result<(BuilderView, GraphIOView), BuildError> {
    match convert_spec(io, p) {
        None => Err(BuildError::InvalidGraph),
        Some(n0) => {
            let b1 = counted(b, n0.node_type);
            let n1 = named_node(b, n0);
            let b2 = identity_b(b1, n1, i);
            let n2 = identity_n(b1, n1);
            match constants_spec(b2, n2, i) {
                None => Err(BuildError::MissingConstantValue),
                Some((b3, n3)) => match unsqueeze_spec(n3, io, raw) {
                    Err(e) => Err(e),
                    Ok(n4) => {
                        let io5 = crate::graph_io::after_outputs(io, n4.outputs);
                        match rename_io_spec(n4, io5, raw) {
                            Err(e) => Err(e),
                            Ok((n6, io6)) => Ok((BuilderView { nodes: b3.nodes.push(n6), ..b3 }, io6)),
                        }
                    },
                },
            }
        },
    }
}

/// The registry as built from the model's declarations.
pub open spec fn initial_io(m: ModelProto) -> GraphIOView {
    GraphIOView {
        inputs: Seq::new(
            m.inputs@.len(),
            |i: int| crate::graph_io::declared_input(m.inputs@[i]@, i as nat, args_view(m.initializers@)),
        ),
        outputs: Seq::new(m.outputs@.len(), |i: int| crate::graph_io::declared_output(m.outputs@[i]@)),
        initializers: args_view(m.initializers@),
        node_out: Seq::empty(),
        keys: names_of(args_view(m.inputs@)) + names_of(args_view(m.outputs@)),
        entries: Seq::new(m.inputs@.len(), |i: int| IOEntry::In(i as usize)) + Seq::new(
            m.outputs@.len(),
            |i: int| IOEntry::Out(i as usize),
        ),
    }
}

/// The builder and registry after the first `n` nodes of the model.
pub open spec fn pipeline(m: ModelProto, n: nat) -> Result<(BuilderView, GraphIOView), BuildError>
    decreases n,
{
    if n == 0 {
        Ok((fresh_builder(), initial_io(m)))
    } else {
        match pipeline(m, (n - 1) as nat) {
            Ok((b, io)) => node_step(b, io, m.nodes@[n - 1], (n - 1) as usize, m.nodes@),
            Err(e) => Err(e),
        }
    }
}

/// The nodes among the first `n` whose index is not removed, in order.
pub open spec fn kept_nodes(nodes: Seq<NodeView>, removed: Set<usize>, n: nat) -> Seq<NodeView>
    decreases n,
{
    if n == 0 {
        Seq::empty()
    } else if removed.contains((n - 1) as usize) {
        kept_nodes(nodes, removed, (n - 1) as nat)
    } else {
        kept_nodes(nodes, removed, (n - 1) as nat).push(nodes[n - 1])
    }
}

/// The graph built from a model: its nodes, inputs and outputs; or the error that ends
/// the build.
pub open spec fn built_graph(m: ModelProto) -> Result<(Seq<NodeView>, Seq<ArgumentView>, Seq<ArgumentView>), BuildError> {
    if !top_sorted(m.nodes@) {
        Err(BuildError::NotTopologicallySorted)
    } else {
        match pipeline(m, m.nodes@.len()) {
            Ok((b, io)) => Ok(
                (
                    kept_nodes(b.nodes, b.to_remove, b.nodes.len()),
                    passed_only(io.inputs),
                    passed_only(io.outputs),
                ),
            ),
            Err(e) => Err(e),
        }
    }
}

} // verus!
