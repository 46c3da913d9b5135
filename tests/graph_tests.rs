use burn_import::builder::{
    convert_constant_value, is_top_sorted, parse_onnx, remap_unsqueeze_to_reshape,
    remove_unused_graph_inputs, BuildError, ModelProto, NodeProto, ONNXGraphBuilder,
};
use burn_import::graph_io::{GraphIOError, IOEntry, OnnxGraphIO};
use burn_import::ir::{
    concat_decimal, ArgType, Argument, AttributeValue, Data, ElementType, Node, NodeType,
    OnnxGraph, TensorType,
};

fn tensor(name: &str, dim: usize, shape: Option<Vec<usize>>) -> Argument {
    Argument {
        name: name.to_string(),
        ty: ArgType::Tensor(TensorType { elem_type: ElementType::Float32, dim, shape }),
        value: None,
        passed: false,
    }
}

fn int_literal(name: &str, values: Vec<i64>) -> Argument {
    let n = values.len();
    Argument {
        name: name.to_string(),
        ty: ArgType::Tensor(TensorType { elem_type: ElementType::Int64, dim: 1, shape: Some(vec![n]) }),
        value: Some(Data::Int64s(values)),
        passed: false,
    }
}

fn node(t: NodeType, name: &str, inputs: &[&str], outputs: &[&str]) -> NodeProto {
    NodeProto {
        node_type: t,
        name: name.to_string(),
        inputs: inputs.iter().map(|s| s.to_string()).collect(),
        outputs: outputs.iter().map(|s| tensor(s, 2, None)).collect(),
        attrs: Vec::new(),
    }
}

fn model(
    inputs: Vec<Argument>,
    outputs: Vec<Argument>,
    initializers: Vec<Argument>,
    nodes: Vec<NodeProto>,
) -> ModelProto {
    ModelProto { inputs, outputs, initializers, nodes }
}

fn names(g: &OnnxGraph) -> Vec<String> {
    g.nodes.iter().map(|n| n.name.clone()).collect()
}

#[test]
fn decimal_names() {
    assert_eq!(concat_decimal("input", 1), "input1");
    assert_eq!(concat_decimal("relu", 0), "relu0");
    assert_eq!(concat_decimal("x", 1203), "x1203");
}

#[test]
fn registry_renames_inputs_and_merges_initializers() {
    let inputs = vec![tensor("a", 2, None), tensor("w", 1, None)];
    let outputs = vec![tensor("out", 2, None)];
    let inits = vec![int_literal("w", vec![5, 6])];
    let io = OnnxGraphIO::new(&inputs, &outputs, &inits);
    assert_eq!(io.inputs[0].name, "input1");
    assert_eq!(io.inputs[1].name, "input2");
    assert!(io.inputs[0].value.is_none());
    assert!(matches!(&io.inputs[1].value, Some(Data::Int64s(v)) if v == &vec![5, 6]));
    assert_eq!(io.outputs[0].name, "out");
    assert_eq!(io.old_io_names.get(&"a".to_string()), Some(IOEntry::In(0)));
    assert_eq!(io.old_io_names.get(&"out".to_string()), Some(IOEntry::Out(0)));
    assert_eq!(io.old_io_names.get(&"zz".to_string()), None);
}

#[test]
fn registry_init_in_cases() {
    let inputs = vec![tensor("a", 2, None)];
    let outputs = vec![tensor("out", 2, None)];
    let inits = vec![int_literal("k", vec![1])];
    let io = OnnxGraphIO::new(&inputs, &outputs, &inits);
    let a = io.init_in(&"a".to_string()).ok().unwrap();
    assert_eq!(a.name, "a");
    assert!(a.passed);
    let k = io.init_in(&"k".to_string()).ok().unwrap();
    assert!(matches!(&k.value, Some(Data::Int64s(v)) if v == &vec![1]));
    let fresh = io.init_in(&"nothing".to_string()).ok().unwrap();
    assert_eq!(fresh.name, "nothing");
    assert!(fresh.value.is_none());
    assert!(!fresh.passed);
    assert!(matches!(io.init_in(&"out".to_string()), Err(GraphIOError::InvalidGraphError)));
}

#[test]
fn registry_renames_and_errors() {
    let inputs = vec![tensor("a", 2, None)];
    let outputs = vec![tensor("out", 2, None)];
    let mut io = OnnxGraphIO::new(&inputs, &outputs, &Vec::new());
    assert_eq!(
        io.update_name(&"a".to_string(), &"x".to_string()),
        Err(GraphIOError::InvalidGraphError)
    );
    assert_eq!(
        io.update_name(&"unknown".to_string(), &"x".to_string()),
        Err(GraphIOError::InvalidGraphError)
    );
    assert_eq!(io.update_name(&"out".to_string(), &"relu1_out1".to_string()), Ok(()));
    assert_eq!(io.outputs[0].name, "relu1_out1");
    assert!(io.get_new_name(&"out".to_string()).is_err());
    assert_eq!(io.get_new_name(&"a".to_string()), Ok(Some("input1".to_string())));
    assert!(io.inputs[0].passed);
    assert_eq!(io.get_new_name(&"else".to_string()), Ok(None));
}

#[test]
fn registry_insert_and_node_outputs() {
    let mut io = OnnxGraphIO::new(&Vec::new(), &Vec::new(), &Vec::new());
    io.update_tensor_output(&vec![tensor("t", 2, None)]);
    assert_eq!(io.old_io_names.get(&"t".to_string()), Some(IOEntry::Node(0)));
    assert!(io.get_node_output(&"t".to_string()).is_err());
    assert!(matches!(io.get_node_output(&"u".to_string()), Ok(None)));
    io.insert(&tensor("t", 2, None), &"constant1_out1".to_string());
    assert_eq!(io.node_out.len(), 1);
    assert_eq!(io.node_out[0].name, "constant1_out1");
    assert_eq!(io.get_new_name(&"t".to_string()), Ok(Some("constant1_out1".to_string())));
    io.insert(&tensor("c", 2, None), &"constant2_out1".to_string());
    assert_eq!(io.node_out.len(), 2);
    assert_eq!(io.old_io_names.get(&"c".to_string()), Some(IOEntry::Node(1)));
}

#[test]
fn identity_is_elided() {
    let m = model(
        vec![tensor("x", 2, None)],
        vec![tensor("z", 2, None)],
        Vec::new(),
        vec![
            node(NodeType::Identity, "id", &["x"], &["y"]),
            node(NodeType::Relu, "r", &["y"], &["z"]),
        ],
    );
    let g = parse_onnx(&m).ok().unwrap();
    assert_eq!(names(&g), vec!["relu1".to_string()]);
    assert!(g.nodes.iter().all(|n| n.node_type != NodeType::Identity));
    assert_eq!(g.nodes[0].inputs[0].name, "input1");
    assert!(g.nodes[0].inputs[0].passed);
    assert_eq!(g.nodes[0].outputs[0].name, "relu1_out1");
    assert_eq!(g.inputs.len(), 1);
    assert_eq!(g.inputs[0].name, "input1");
    assert!(g.inputs[0].passed);
    assert_eq!(g.outputs.len(), 1);
    assert_eq!(g.outputs[0].name, "relu1_out1");
    assert!(g.outputs[0].passed);
}

#[test]
fn constant_is_lifted_into_reshape() {
    let mut constant = node(NodeType::Constant, "c", &[], &["shape"]);
    constant.attrs.push(("value_ints".to_string(), AttributeValue::Int64s(vec![2, 3])));
    let m = model(
        vec![tensor("x", 2, None)],
        vec![tensor("out", 2, None)],
        Vec::new(),
        vec![constant, node(NodeType::Reshape, "r", &["x", "shape"], &["out"])],
    );
    let g = parse_onnx(&m).ok().unwrap();
    assert_eq!(names(&g), vec!["reshape1".to_string()]);
    let shape_input = &g.nodes[0].inputs[1];
    assert!(matches!(&shape_input.value, Some(Data::Int64s(v)) if v == &vec![2, 3]));
    assert!(matches!(
        &shape_input.ty,
        ArgType::Tensor(TensorType { elem_type: ElementType::Int64, dim: 1, shape: Some(s) }) if s == &vec![2]
    ));
    assert!(g.nodes.iter().all(|n| n.node_type != NodeType::Constant));
}

#[test]
fn first_operand_is_never_lifted() {
    let mut constant = node(NodeType::Constant, "c", &[], &["data"]);
    constant.attrs.push(("value_ints".to_string(), AttributeValue::Int64s(vec![4])));
    let m = model(
        vec![tensor("s", 1, None)],
        vec![tensor("out", 2, None)],
        Vec::new(),
        vec![constant, node(NodeType::Reshape, "r", &["data", "s"], &["out"])],
    );
    let g = parse_onnx(&m).ok().unwrap();
    assert_eq!(names(&g), vec!["constant1".to_string(), "reshape1".to_string()]);
    assert!(g.nodes[1].inputs[0].value.is_none());
}

#[test]
fn constant_without_value_fails() {
    let m = model(
        vec![tensor("x", 2, None)],
        vec![tensor("out", 2, None)],
        Vec::new(),
        vec![
            node(NodeType::Constant, "c", &[], &["shape"]),
            node(NodeType::Reshape, "r", &["x", "shape"], &["out"]),
        ],
    );
    assert!(matches!(parse_onnx(&m), Err(BuildError::MissingConstantValue)));
}

#[test]
fn constant_value_key_order() {
    let n = Node {
        node_type: NodeType::Constant,
        name: "c".to_string(),
        inputs: Vec::new(),
        outputs: Vec::new(),
        attrs: vec![
            ("value_int".to_string(), AttributeValue::Int64(7)),
            ("value_floats".to_string(), AttributeValue::Float32s(vec![1])),
        ],
    };
    let a = convert_constant_value(&n);
    assert!(matches!(a.value, Some(Data::Float32s(ref v)) if v == &vec![1]));
    assert!(matches!(a.ty, ArgType::Tensor(TensorType { elem_type: ElementType::Float32, dim: 1, .. })));
}

#[test]
fn unsqueeze_to_graph_output_becomes_reshape() {
    let m = model(
        vec![tensor("x", 3, Some(vec![3, 224, 224])), tensor("axes", 1, None)],
        vec![tensor("y", 4, Some(vec![1, 3, 224, 224]))],
        Vec::new(),
        vec![node(NodeType::Unsqueeze, "u", &["x", "axes"], &["y"])],
    );
    let g = parse_onnx(&m).ok().unwrap();
    assert_eq!(g.nodes.len(), 1);
    let n = &g.nodes[0];
    assert_eq!(n.node_type, NodeType::Reshape);
    assert_eq!(n.name, "unsqueeze1");
    assert!(matches!(
        &n.outputs[0].ty,
        ArgType::Tensor(TensorType { shape: Some(s), .. }) if s == &vec![1, 3, 224, 224]
    ));
    assert!(matches!(&n.inputs[1].value, Some(Data::Int64s(v)) if v == &vec![1, 3, 224, 224]));
    assert!(matches!(
        &n.inputs[1].ty,
        ArgType::Tensor(TensorType { elem_type: ElementType::Int64, dim: 1, shape: Some(s) }) if s == &vec![4]
    ));
    assert!(!n.inputs[1].passed);
    assert_eq!(g.inputs.len(), 1);
    assert_eq!(g.outputs[0].name, "unsqueeze1_out1");
}

#[test]
fn unsqueeze_on_internal_edge_is_kept() {
    let m = model(
        vec![tensor("x", 3, None), tensor("axes", 1, None)],
        vec![tensor("z", 4, None)],
        Vec::new(),
        vec![
            node(NodeType::Unsqueeze, "u", &["x", "axes"], &["t"]),
            node(NodeType::Relu, "r", &["t"], &["z"]),
        ],
    );
    let g = parse_onnx(&m).ok().unwrap();
    assert_eq!(g.nodes[0].node_type, NodeType::Unsqueeze);
    assert_eq!(g.nodes[1].inputs[0].name, "unsqueeze1_out1");
}

#[test]
fn remap_requires_known_shape() {
    let mut n = Node {
        node_type: NodeType::Unsqueeze,
        name: "unsqueeze1".to_string(),
        inputs: vec![tensor("x", 2, None), tensor("axes", 1, None)],
        outputs: vec![tensor("y", 3, None)],
        attrs: Vec::new(),
    };
    remap_unsqueeze_to_reshape(&mut n, &tensor("y", 3, None));
    assert_eq!(n.node_type, NodeType::Unsqueeze);
    remap_unsqueeze_to_reshape(&mut n, &tensor("g", 3, Some(vec![2, 1, 5])));
    assert_eq!(n.node_type, NodeType::Reshape);
    assert_eq!(n.inputs[1].name, "unsqueeze1_generated_const");
    assert_eq!(n.outputs[0].name, "g");
}

#[test]
fn out_of_order_nodes_are_detected() {
    let nodes = vec![
        node(NodeType::Relu, "a", &["t"], &["u"]),
        node(NodeType::Relu, "b", &["x"], &["t"]),
    ];
    assert!(!is_top_sorted(&nodes));
    let sorted = vec![
        node(NodeType::Relu, "b", &["x"], &["t"]),
        node(NodeType::Relu, "a", &["t"], &["u"]),
    ];
    assert!(is_top_sorted(&sorted));
    let m = model(vec![tensor("x", 2, None)], vec![tensor("u", 2, None)], Vec::new(), nodes);
    assert!(matches!(parse_onnx(&m), Err(BuildError::NotTopologicallySorted)));
}

#[test]
fn unused_initialized_input_is_pruned() {
    let m = model(
        vec![tensor("x", 2, None), tensor("w", 1, None)],
        vec![tensor("z", 2, None)],
        vec![int_literal("w", vec![9])],
        vec![node(NodeType::Relu, "r", &["x"], &["z"])],
    );
    let g = parse_onnx(&m).ok().unwrap();
    assert_eq!(g.inputs.len(), 1);
    assert_eq!(g.inputs[0].name, "input1");
}

#[test]
fn consumed_initialized_input_carries_literal() {
    let m = model(
        vec![tensor("x", 2, None), tensor("w", 1, None)],
        vec![tensor("z", 2, None)],
        vec![int_literal("w", vec![9])],
        vec![node(NodeType::Add, "a", &["x", "w"], &["z"])],
    );
    let g = parse_onnx(&m).ok().unwrap();
    let w = &g.nodes[0].inputs[1];
    assert!(matches!(&w.value, Some(Data::Int64s(v)) if v == &vec![9]));
    assert_eq!(w.name, "");
    assert!(g.inputs.iter().all(|a| a.passed));
}

#[test]
fn names_are_unique_and_positional() {
    let m = model(
        vec![tensor("x", 2, None)],
        vec![tensor("o", 2, None)],
        Vec::new(),
        vec![
            node(NodeType::Relu, "", &["x"], &["a"]),
            node(NodeType::Relu, "", &["a"], &["b"]),
            node(NodeType::Add, "", &["a", "b"], &["c", "d"]),
            node(NodeType::Relu, "", &["c"], &["o"]),
        ],
    );
    let g = parse_onnx(&m).ok().unwrap();
    assert_eq!(names(&g), vec!["relu1", "relu2", "add1", "relu3"]);
    assert_eq!(g.nodes[2].outputs[0].name, "add1_out1");
    assert_eq!(g.nodes[2].outputs[1].name, "add1_out2");
    assert_eq!(g.nodes[3].inputs[0].name, "add1_out1");
    let mut all: Vec<String> = g.nodes.iter().flat_map(|n| n.outputs.iter().map(|o| o.name.clone())).collect();
    let count = all.len();
    all.sort();
    all.dedup();
    assert_eq!(all.len(), count);
}

#[test]
fn names_do_not_depend_on_file_names() {
    let build = |a: &str, b: &str, c: &str| {
        model(
            vec![tensor(a, 2, None)],
            vec![tensor(c, 2, None)],
            Vec::new(),
            vec![
                node(NodeType::Conv2d, "first", &[a], &[b]),
                node(NodeType::Relu, "second", &[b], &[c]),
            ],
        )
    };
    let g1 = parse_onnx(&build("x", "y", "z")).ok().unwrap();
    let g2 = parse_onnx(&build("in", "mid", "final")).ok().unwrap();
    assert_eq!(names(&g1), names(&g2));
    assert_eq!(names(&g1), vec!["conv2d1", "relu1"]);
    for (n1, n2) in g1.nodes.iter().zip(g2.nodes.iter()) {
        let o1: Vec<String> = n1.outputs.iter().map(|o| o.name.clone()).collect();
        let o2: Vec<String> = n2.outputs.iter().map(|o| o.name.clone()).collect();
        assert_eq!(o1, o2);
    }
}

#[test]
fn pruning_twice_changes_nothing() {
    let mut a = tensor("a", 1, None);
    a.passed = true;
    let mut inputs = vec![a, tensor("b", 1, None)];
    let mut outputs = vec![tensor("c", 1, None)];
    remove_unused_graph_inputs(&mut inputs, &mut outputs);
    assert_eq!(inputs.len(), 1);
    assert_eq!(inputs[0].name, "a");
    assert!(outputs.is_empty());
    remove_unused_graph_inputs(&mut inputs, &mut outputs);
    assert_eq!(inputs.len(), 1);
    assert_eq!(inputs[0].name, "a");
    assert!(outputs.is_empty());
}

#[test]
fn builder_runs_once_per_model() {
    let m = model(
        vec![tensor("x", 2, None)],
        vec![tensor("z", 2, None)],
        Vec::new(),
        vec![node(NodeType::Sigmoid, "s", &["x"], &["z"])],
    );
    let mut b = ONNXGraphBuilder::new();
    let g = b.build(&m).ok().unwrap();
    assert_eq!(names(&g), vec!["sigmoid1"]);
}

#[test]
fn graph_output_consumed_by_node_is_invalid() {
    let m = model(
        vec![tensor("x", 2, None)],
        vec![tensor("z", 2, None)],
        Vec::new(),
        vec![
            node(NodeType::Relu, "r", &["x"], &["z"]),
            node(NodeType::Relu, "s", &["z"], &["w"]),
        ],
    );
    assert!(matches!(parse_onnx(&m), Err(BuildError::InvalidGraph)));
}

#[test]
fn unsorted_duplicate_output_is_reported() {
    let m = model(
        vec![tensor("x", 2, None), tensor("axes", 1, None)],
        vec![tensor("z", 2, None)],
        Vec::new(),
        vec![
            node(NodeType::Relu, "a", &["w"], &["t"]),
            node(NodeType::Unsqueeze, "u", &["x", "axes"], &["t"]),
            node(NodeType::Relu, "b", &["x"], &["w"]),
        ],
    );
    assert!(!is_top_sorted(&m.nodes));
    assert!(matches!(parse_onnx(&m), Err(BuildError::NotTopologicallySorted)));
}

#[test]
fn registry_starts_with_nothing_in_use() {
    let mut a = tensor("a", 2, None);
    a.passed = true;
    let mut o = tensor("o", 2, None);
    o.passed = true;
    let io = OnnxGraphIO::new(&vec![a], &vec![o], &Vec::new());
    assert!(!io.inputs[0].passed);
    assert!(!io.outputs[0].passed);
}

#[test]
fn unsqueeze_onto_prior_output_fails() {
    let m = model(
        vec![tensor("x", 2, None), tensor("axes", 1, None)],
        vec![tensor("z", 2, None)],
        Vec::new(),
        vec![
            node(NodeType::Relu, "a", &["x"], &["t"]),
            node(NodeType::Unsqueeze, "u", &["x", "axes"], &["t"]),
        ],
    );
    assert!(is_top_sorted(&m.nodes));
    assert!(matches!(parse_onnx(&m), Err(BuildError::InvalidGraph)));
}
