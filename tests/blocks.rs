use node_engine::{
    CodeBlock, CodeBlockId, DataType, Error, Input, InputKey, Node, NodeDefinition, NodeGraph,
    NodeGraphCompile, NodeId, NodeRegistry, OutputId, ParameterDataType, ParameterValue,
};

#[test]
fn pop_of_other_block_fails() {
    let mut compile = NodeGraphCompile::new();
    let x = compile.push_new_block("x");
    let other = CodeBlockId(x.0 + 1);
    assert_eq!(
        compile.pop(Some(other)),
        Err(Error::BlockStack { expected: Some(other), found: Some(x) })
    );
}

#[test]
fn matched_pop_restores_current_block() {
    let mut compile = NodeGraphCompile::new();
    let outer = compile.push_new_block("bindings");
    let inner = compile.push_new_block("fragment");
    assert_eq!(compile.current_block_id(), Ok(inner));
    assert_eq!(compile.pop(Some(inner)), Ok(Some(inner)));
    assert_eq!(compile.current_block_id(), Ok(outer));
    assert_eq!(compile.pop(Some(outer)), Ok(Some(outer)));
    assert_eq!(compile.current_block_id(), Err(Error::NoCurrentBlock));
    assert_eq!(compile.pop(None), Ok(None));
}

#[test]
fn blocks_are_found_by_name_and_dumped_in_order() {
    let mut compile = NodeGraphCompile::new();
    let a = compile.define_block("imports");
    let b = compile.define_block("bindings");
    assert_eq!(compile.define_block("imports"), a);
    assert_ne!(a, b);
    compile.append_code("bindings", "B".to_string()).unwrap();
    compile.append_code("imports", "A".to_string()).unwrap();
    assert_eq!(compile.append_code("missing", "C".to_string()), Err(Error::UndefinedBlock));
    assert_eq!(compile.dump(), "AB");
    assert!(compile.get_block("bindings").is_some());
    assert!(compile.get_block("nope").is_none());
    assert!(compile.get_block_by_id(b).is_some());
    compile.clear();
    assert_eq!(compile.dump(), "");
}

#[test]
fn lazy_output_is_emitted_once() {
    let mut block = CodeBlock::new();
    let id = OutputId::new(NodeId(4), 0);
    block.add_output(id, "add", "(a + b)".to_string(), DataType::F32);
    assert_eq!(block.dump(), "");
    let first = block.resolve_output(id).unwrap();
    let second = block.resolve_output(id).unwrap();
    assert_eq!(first.value, "add_1");
    assert_eq!(second.value, "add_1");
    assert_eq!(block.dump(), "\n  let add_1 = (a + b);");
    assert_eq!(block.resolve_output(OutputId::new(NodeId(5), 0)), Err(Error::UnknownOutput));
}

#[test]
fn locals_count_up() {
    let mut block = CodeBlock::new();
    for _ in 0..11 {
        block.add_local("t", "0".to_string(), DataType::F32);
    }
    assert_eq!(block.add_local("t", "1".to_string(), DataType::F32), "t_12");
    block.append_output(NodeId(1), "in.uv".to_string());
    assert!(block.dump().ends_with("\n  let out_13 = in.uv;"));
}

#[test]
fn add_output_needs_a_block() {
    let mut compile = NodeGraphCompile::new();
    let id = OutputId::new(NodeId(0), 0);
    assert_eq!(compile.add_output(id, "p", "x".to_string(), DataType::F32), Err(Error::NoCurrentBlock));
}

fn two_inputs() -> NodeDefinition {
    let mut def = NodeDefinition::new("Pair", "node_engine::nodes::pair");
    def.add_input("a", DataType::F32);
    def.add_input("b", DataType::F32);
    def.add_output("out", DataType::F32);
    def
}

#[test]
fn remove_severs_dependents() {
    let def = two_inputs();
    let mut graph = NodeGraph::new();
    let n1 = graph.add(Node::new(&def));
    let n2 = graph.add(Node::new(&def));
    graph.set_node_input(n2, &InputKey::Idx(1), Input::from_node(n1)).unwrap();
    graph.set_output(Some(n1)).unwrap();
    assert_eq!(graph.connections().len(), 1);
    assert!(graph.remove(n1).is_some());
    assert!(!graph.contains(n1));
    assert_eq!(graph.output(), None);
    assert!(matches!(graph.get_node_input(n2, &InputKey::Idx(1)), Ok(Input::Value(_))));
    assert_eq!(graph.connections().len(), 0);
    assert!(graph.remove(n1).is_none());
    assert_eq!(graph.get(n1).err(), Some(Error::MissingNode(n1)));
    let n3 = graph.add(Node::new(&def));
    assert_ne!(n3, n1);
}

#[test]
fn set_input_reports_previous_connection() {
    let def = two_inputs();
    let mut graph = NodeGraph::new();
    let n1 = graph.add(Node::new(&def));
    let n2 = graph.add(Node::new(&def));
    let n3 = graph.add(Node::new(&def));
    let a = InputKey::Name("A".to_string());
    assert_eq!(graph.set_node_input(n3, &a, Input::from_node(n1)), Ok(None));
    assert_eq!(graph.set_node_input(n3, &a, Input::from_node(n2)), Ok(Some(OutputId::new(n1, 0))));
    assert_eq!(
        graph.set_node_input(n3, &a, Input::from_node(NodeId(99))),
        Err(Error::MissingNode(NodeId(99)))
    );
    assert_eq!(
        graph.set_node_input(NodeId(42), &a, Input::Disconnect),
        Err(Error::MissingNode(NodeId(42)))
    );
    assert_eq!(
        graph.set_node_input(n3, &InputKey::Name("Z".to_string()), Input::Disconnect),
        Err(Error::UnknownInput)
    );
    assert_eq!(graph.get_input_id(n3, &a).unwrap().idx, 0);
    assert_eq!(graph.set_output(Some(NodeId(77))), Err(Error::MissingNode(NodeId(77))));
}

#[test]
fn registry_reports_duplicates() {
    let mut registry = NodeRegistry::new();
    assert!(registry.register(two_inputs()).is_none());
    let again = registry.register(two_inputs());
    assert!(again.is_some());
    assert_eq!(registry.len(), 1);
    let node = registry.new_by_name("Pair").unwrap();
    assert_eq!(node.inputs.len(), 2);
    assert!(registry.new_by_id(node.node_type).is_ok());
    assert!(matches!(registry.new_by_name("Nope"), Err(Error::MissingDefinition)));
}

#[test]
fn graph_parameter_edits() {
    let mut def = two_inputs();
    def.add_parameter("mode", ParameterDataType::Select(vec!["A".to_string(), "B".to_string()]));
    let mut graph = NodeGraph::new();
    let n = graph.add(Node::new(&def));
    assert_eq!(graph.set_node_param(n, "Mode", ParameterValue::Selected("B".to_string())), Ok(()));
    assert_eq!(graph.get(n).unwrap().get_param("Mode"), Ok(&ParameterValue::Selected("B".to_string())));
    assert_eq!(
        graph.set_node_param(n, "Mode", ParameterValue::Selected("C".to_string())),
        Err(Error::InvalidSelection)
    );
    assert_eq!(
        graph.set_node_param(NodeId(9), "Mode", ParameterValue::Selected("A".to_string())),
        Err(Error::MissingNode(NodeId(9)))
    );
}

#[test]
fn disconnecting_an_unconnected_port_changes_nothing() {
    let def = two_inputs();
    let mut graph = NodeGraph::new();
    let n = graph.add(Node::new(&def));
    let before = graph.changed_counter();
    assert_eq!(graph.set_node_input(n, &InputKey::Idx(0), Input::Disconnect), Ok(None));
    assert_eq!(graph.changed_counter(), before);
}

#[test]
fn text_parameters_are_set_through_the_graph() {
    let mut def = two_inputs();
    def.add_parameter("mask", ParameterDataType::Text("xyz".to_string()));
    let mut graph = NodeGraph::new();
    let n = graph.add(Node::new(&def));
    assert_eq!(graph.set_node_param(n, "Mask", ParameterValue::Text("xy".to_string())), Ok(()));
    assert_eq!(graph.get(n).unwrap().get_param("Mask"), Ok(&ParameterValue::Text("xy".to_string())));
}

#[test]
fn pop_of_a_defined_but_other_block_fails() {
    let mut compile = NodeGraphCompile::new();
    let a = compile.push_new_block("x");
    let b = compile.define_block("y");
    assert_ne!(a, b);
    assert!(matches!(compile.pop(Some(b)), Err(Error::BlockStack { .. })));
}

#[test]
fn rebuild_refuses_bad_records() {
    let def = two_inputs();
    let mut registry = NodeRegistry::new();
    registry.register(two_inputs());
    let mut graph = NodeGraph::new();
    let n1 = graph.add(Node::new(&def));
    let n2 = graph.add(Node::new(&def));
    graph.set_node_input(n2, &InputKey::Idx(0), Input::from_node(n1)).unwrap();
    let mut states = graph.port_states();
    states[0] = None;
    assert_eq!(
        NodeGraph::from_port_states(&registry, states, None).err(),
        Some(Error::MissingNode(n1))
    );
    let states = graph.port_states();
    assert_eq!(
        NodeGraph::from_port_states(&registry, states, Some(NodeId(5))).err(),
        Some(Error::MissingNode(NodeId(5)))
    );
    let mut states = graph.port_states();
    if let Some(rec) = &mut states[1] {
        rec.inputs.pop();
    }
    assert_eq!(NodeGraph::from_port_states(&registry, states, None).err(), Some(Error::UnknownInput));
}
