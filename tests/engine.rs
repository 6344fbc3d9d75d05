use std::cell::Cell;

use node_engine::{
    evaluate, CompiledValue, DataType, Error, Input, InputKey, Node, NodeDefinition, NodeGraph,
    NodeGraphCompile, NodeGraphExecution, NodeId, NodeImpl, NodeRegistry, OutputId, Value,
};

const PATH: &str = "node_engine::nodes::scalar_math";

/// Scalar kinds for the tests: `a + b` on single-precision floats.
struct ScalarKinds {
    evals: Cell<u32>,
}

impl ScalarKinds {
    fn new() -> Self {
        ScalarKinds { evals: Cell::new(0) }
    }
}

fn float(v: &Value) -> f32 {
    match v {
        Value::F32(bits) => f32::from_bits(*bits),
        Value::I32(i) => *i as f32,
        Value::U32(u) => *u as f32,
        _ => 0.0,
    }
}

fn f(x: f32) -> Value {
    Value::F32(x.to_bits())
}

impl ScalarKinds {
    fn eval(&self, _kind: u128, inputs: Vec<Value>) -> Result<Value, Error> {
        self.evals.set(self.evals.get() + 1);
        if inputs.len() != 2 {
            return Err(Error::Node);
        }
        Ok(f(float(&inputs[0]) + float(&inputs[1])))
    }
}

impl NodeImpl for ScalarKinds {
    fn literal(&self, value: &Value) -> CompiledValue {
        CompiledValue { value: format!("{:?}", float(value)), dt: value.data_type() }
    }

    fn compile(&self, _node: &Node, inputs: &Vec<CompiledValue>) -> Result<Vec<(String, String, DataType)>, Error> {
        let code = format!("({} + {})", inputs[0].value, inputs[1].value);
        Ok(vec![("scalar".to_string(), code, inputs[0].dt)])
    }
}

fn scalar_math() -> NodeDefinition {
    let mut def = NodeDefinition::new("Scalar Math", PATH);
    def.add_input("a", DataType::F32);
    def.add_input("b", DataType::F32);
    def.add_output("out", DataType::F32);
    def.cache_output = true;
    def
}

fn key(name: &str) -> InputKey {
    InputKey::Name(name.to_string())
}

/// node3 = node1 + node2, node2 = node1 + 2, node1 = 1 + 2.
fn diamond() -> (NodeGraph, NodeId, NodeId, NodeId) {
    let def = scalar_math();
    let mut graph = NodeGraph::new();
    let node1 = graph.add(Node::new(&def));
    graph.set_node_input(node1, &key("A"), Input::Value(f(1.0))).unwrap();
    graph.set_node_input(node1, &key("B"), Input::Value(f(2.0))).unwrap();
    let node2 = graph.add(Node::new(&def));
    graph.set_node_input(node2, &key("A"), Input::from_node(node1)).unwrap();
    graph.set_node_input(node2, &key("B"), Input::Value(f(2.0))).unwrap();
    let node3 = graph.add(Node::new(&def));
    graph.set_node_input(node3, &key("A"), Input::from_node(node1)).unwrap();
    graph.set_node_input(node3, &key("B"), Input::from_node(node2)).unwrap();
    graph.set_output(Some(node3)).unwrap();
    (graph, node1, node2, node3)
}

#[test]
fn compile_graph() {
    let (graph, _, _, _) = diamond();
    let kinds = ScalarKinds::new();
    let mut execution = NodeGraphExecution::new();
    let val = execution.eval_graph(&graph, &|k, v| kinds.eval(k, v)).unwrap();
    assert_eq!(val, f(8.0));
}

#[test]
fn diamond_computes_shared_node_once() {
    let (graph, _, _, _) = diamond();
    let kinds = ScalarKinds::new();
    let val = evaluate(&graph, &|k, v| kinds.eval(k, v)).unwrap();
    assert_eq!(float(&val), 8.0);
    // node1, node2 and node3 are each computed once.
    assert_eq!(kinds.evals.get(), 3);
}

#[test]
fn diamond_without_cache_recomputes() {
    let mut def = scalar_math();
    def.cache_output = false;
    let mut graph = NodeGraph::new();
    let node1 = graph.add(Node::new(&def));
    graph.set_node_input(node1, &key("A"), Input::Value(f(1.0))).unwrap();
    graph.set_node_input(node1, &key("B"), Input::Value(f(2.0))).unwrap();
    let node2 = graph.add(Node::new(&def));
    graph.set_node_input(node2, &key("A"), Input::from_node(node1)).unwrap();
    let node3 = graph.add(Node::new(&def));
    graph.set_node_input(node3, &key("A"), Input::from_node(node1)).unwrap();
    graph.set_node_input(node3, &key("B"), Input::from_node(node2)).unwrap();
    graph.set_output(Some(node3)).unwrap();
    let kinds = ScalarKinds::new();
    let val = evaluate(&graph, &|k, v| kinds.eval(k, v)).unwrap();
    assert_eq!(float(&val), 6.0);
    assert_eq!(kinds.evals.get(), 4);
}

#[test]
fn evaluate_twice_is_identical_and_sees_edits() {
    let (mut graph, node1, _, _) = diamond();
    let kinds = ScalarKinds::new();
    let mut execution = NodeGraphExecution::new();
    let first = execution.eval_graph(&graph, &|k, v| kinds.eval(k, v)).unwrap();
    let second = execution.eval_graph(&graph, &|k, v| kinds.eval(k, v)).unwrap();
    assert_eq!(first, second);
    graph.set_node_input(node1, &key("A"), Input::Value(f(5.0))).unwrap();
    let third = execution.eval_graph(&graph, &|k, v| kinds.eval(k, v)).unwrap();
    assert_eq!(float(&third), 16.0);
    assert_ne!(first, third);
}

#[test]
fn cycle_is_an_error() {
    let def = scalar_math();
    let mut graph = NodeGraph::new();
    let a = graph.add(Node::new(&def));
    let b = graph.add(Node::new(&def));
    graph.set_node_input(a, &key("A"), Input::from_node(b)).unwrap();
    graph.set_node_input(b, &key("A"), Input::from_node(a)).unwrap();
    graph.set_output(Some(a)).unwrap();
    let kinds = ScalarKinds::new();
    assert_eq!(evaluate(&graph, &|k, v| kinds.eval(k, v)), Err(Error::Cycle(a)));
}

#[test]
fn uncached_cycle_is_an_error() {
    let mut def = scalar_math();
    def.cache_output = false;
    let mut graph = NodeGraph::new();
    let a = graph.add(Node::new(&def));
    graph.set_node_input(a, &key("B"), Input::from_node(a)).unwrap();
    graph.set_output(Some(a)).unwrap();
    let kinds = ScalarKinds::new();
    assert!(matches!(evaluate(&graph, &|k, v| kinds.eval(k, v)), Err(Error::Cycle(_))));
}

#[test]
fn missing_output_node() {
    let graph = NodeGraph::new();
    let kinds = ScalarKinds::new();
    assert_eq!(evaluate(&graph, &|k, v| kinds.eval(k, v)), Err(Error::MissingOutputNode));
    let mut compile = NodeGraphCompile::new();
    assert_eq!(compile.compile_graph(&graph, &kinds), Err(Error::MissingOutputNode));
}

#[test]
fn kind_failure_propagates() {
    let mut def = NodeDefinition::new("Unary", "node_engine::nodes::unary");
    def.add_input("a", DataType::F32);
    let mut graph = NodeGraph::new();
    let n = graph.add(Node::new(&def));
    graph.set_output(Some(n)).unwrap();
    let kinds = ScalarKinds::new();
    assert_eq!(evaluate(&graph, &|k, v| kinds.eval(k, v)), Err(Error::Node));
}

#[test]
fn compiler_emits_shared_node_once() {
    let (graph, _, _, node3) = diamond();
    let kinds = ScalarKinds::new();
    let mut compile = NodeGraphCompile::new();
    let frag = compile.push_new_block("fragment");
    compile.compile_graph(&graph, &kinds).unwrap();
    let out = compile.resolve_output(&graph, &kinds, OutputId::new(node3, 0)).unwrap();
    assert_eq!(out.value, "scalar_3");
    let again = compile.resolve_output(&graph, &kinds, OutputId::new(node3, 0)).unwrap();
    assert_eq!(again.value, "scalar_3");
    compile.pop(Some(frag)).unwrap();
    let text = compile.dump();
    assert_eq!(
        text,
        "\n  let scalar_1 = (1.0 + 2.0);\n  let scalar_2 = (scalar_1 + 2.0);\n  let scalar_3 = (scalar_1 + scalar_2);"
    );
    assert_eq!(text.matches("let scalar_1 =").count(), 1);
}

#[test]
fn compile_without_block_fails() {
    let (graph, _, _, _) = diamond();
    let kinds = ScalarKinds::new();
    let mut compile = NodeGraphCompile::new();
    assert_eq!(compile.compile_graph(&graph, &kinds), Err(Error::NoCurrentBlock));
}

#[test]
fn compile_cycle_is_an_error() {
    let def = scalar_math();
    let mut graph = NodeGraph::new();
    let a = graph.add(Node::new(&def));
    graph.set_node_input(a, &key("A"), Input::from_node(a)).unwrap();
    graph.set_output(Some(a)).unwrap();
    let kinds = ScalarKinds::new();
    let mut compile = NodeGraphCompile::new();
    compile.push_new_block("fragment");
    assert_eq!(compile.compile_graph(&graph, &kinds), Err(Error::Cycle(a)));
}

#[test]
fn port_states_round_trip() {
    let (graph, _, _, _) = diamond();
    let mut registry = NodeRegistry::new();
    registry.register(scalar_math());
    let states = graph.port_states();
    let rebuilt = NodeGraph::from_port_states(&registry, states, graph.output()).unwrap();
    let kinds = ScalarKinds::new();
    assert_eq!(evaluate(&graph, &|k, v| kinds.eval(k, v)), evaluate(&rebuilt, &|k, v| kinds.eval(k, v)));
    assert_eq!(float(&evaluate(&rebuilt, &|k, v| kinds.eval(k, v)).unwrap()), 8.0);
}

#[test]
fn round_trip_rejects_unknown_kind() {
    let (graph, _, _, _) = diamond();
    let registry = NodeRegistry::new();
    let states = graph.port_states();
    assert!(matches!(
        NodeGraph::from_port_states(&registry, states, graph.output()),
        Err(Error::MissingDefinition)
    ));
}

#[test]
fn eval_node_serves_cache_and_detects_processing() {
    let (graph, node1, _, node3) = diamond();
    let kinds = ScalarKinds::new();
    let eval = |k: u128, v: Vec<Value>| kinds.eval(k, v);
    let mut execution = NodeGraphExecution::new();
    execution.clear(&graph, &eval);
    let v1 = execution.eval_node(&graph, &eval, node1, 10).unwrap();
    assert_eq!(float(&v1), 3.0);
    assert!(matches!(execution.nodes[node1.0 as usize], node_engine::NodeEvalState::Cached(_)));
    let calls = kinds.evals.get();
    assert_eq!(execution.eval_node(&graph, &eval, node1, 0), Ok(v1));
    assert_eq!(kinds.evals.get(), calls);
    execution.nodes[node3.0 as usize] = node_engine::NodeEvalState::Processing;
    assert_eq!(execution.eval_node(&graph, &eval, node3, 10), Err(Error::Cycle(node3)));
}

#[test]
fn compiled_node_is_not_compiled_again() {
    let (graph, node1, _, _) = diamond();
    let kinds = ScalarKinds::new();
    let mut compile = NodeGraphCompile::new();
    compile.push_new_block("fragment");
    compile.compile_node(&graph, &kinds, node1).unwrap();
    let text = compile.dump();
    compile.compile_node(&graph, &kinds, node1).unwrap();
    assert_eq!(compile.dump(), text);
    assert_eq!(compile.compiled.len(), 1);
}
