use node_graph::{
    AnyParameterId, EguiGraphError, Graph, InputId, InputParamKind, NodeId, OutputId,
};

#[derive(Clone, Debug, PartialEq)]
enum DataType {
    Number,
    Text,
}

type TestGraph = Graph<u32, DataType, i64>;

fn bare_node(graph: &mut TestGraph, label: &str, data: u32) -> NodeId {
    graph.add_node(label.to_string(), data, |_, _| {})
}

fn input(graph: &mut TestGraph, node: NodeId, name: &str, typ: DataType) -> InputId {
    graph.add_input_param(
        node,
        name.to_string(),
        typ,
        0,
        InputParamKind::ConnectionOrConstant,
        true,
    )
}

fn output(graph: &mut TestGraph, node: NodeId, name: &str, typ: DataType) -> OutputId {
    graph.add_output_param(node, name.to_string(), typ)
}

#[test]
fn new_graph_is_empty() {
    let graph = TestGraph::new();
    assert_eq!(graph.node_count(), 0);
    assert_eq!(graph.input_count(), 0);
    assert_eq!(graph.output_count(), 0);
    assert!(graph.iter_nodes().is_empty());
    assert!(graph.connection_list().is_empty());
    let other = TestGraph::default();
    assert_eq!(other.node_count(), 0);
}

#[test]
fn add_node_runs_the_builder_on_the_new_node() {
    let mut graph = TestGraph::new();
    let mut seen = None;
    let mut made = None;
    let id = graph.add_node("adder".to_string(), 5, |g, id| {
        seen = Some(id);
        assert!(g.contains_node(id));
        assert!(g.node(id).inputs.is_empty());
        made = Some(g.add_input_param(
            id,
            "a".to_string(),
            DataType::Number,
            3,
            InputParamKind::ConstantOnly,
            false,
        ));
    });
    assert_eq!(seen, Some(id));
    let node = graph.node(id);
    assert_eq!(node.id, id);
    assert_eq!(node.label, "adder");
    assert_eq!(node.user_data, 5);
    assert_eq!(node.input_ids(), vec![made.unwrap()]);
    assert!(node.output_ids().is_empty());
    let port = graph.input(made.unwrap());
    assert_eq!(port.node, id);
    assert_eq!(port.typ, DataType::Number);
    assert_eq!(port.value, 3);
    assert_eq!(port.kind, InputParamKind::ConstantOnly);
    assert!(!port.shown_inline);
    assert_eq!(graph.node_count(), 1);
    assert_eq!(graph.input_count(), 1);
}

#[test]
fn handles_of_different_nodes_differ() {
    let mut graph = TestGraph::new();
    let a = bare_node(&mut graph, "a", 1);
    let b = bare_node(&mut graph, "b", 2);
    let c = bare_node(&mut graph, "c", 3);
    assert_ne!(a, b);
    assert_ne!(b, c);
    assert_ne!(a, c);
    let nodes = graph.iter_nodes();
    assert_eq!(nodes.len(), 3);
    assert!(nodes.contains(&a) && nodes.contains(&b) && nodes.contains(&c));
    assert_eq!(graph.node(b).user_data, 2);
}

#[test]
fn ports_keep_the_order_in_which_they_were_added() {
    let mut graph = TestGraph::new();
    let n = bare_node(&mut graph, "n", 0);
    let i1 = input(&mut graph, n, "first", DataType::Number);
    let o1 = output(&mut graph, n, "out", DataType::Text);
    let i2 = input(&mut graph, n, "second", DataType::Text);
    let i3 = input(&mut graph, n, "third", DataType::Number);
    let node = graph.node(n);
    assert_eq!(node.input_ids(), vec![i1, i2, i3]);
    assert_eq!(node.output_ids(), vec![o1]);
    let names: Vec<&str> = node.inputs.iter().map(|(name, _)| name.as_str()).collect();
    assert_eq!(names, vec!["first", "second", "third"]);
    let ports = node.inputs(&graph);
    assert_eq!(ports.len(), 3);
    assert_eq!(ports[0].id, i1);
    assert_eq!(ports[1].typ, DataType::Text);
    assert_eq!(ports[2].id, i3);
    let outs = node.outputs(&graph);
    assert_eq!(outs.len(), 1);
    assert_eq!(outs[0].id, o1);
    assert_eq!(outs[0].node, n);
    assert_eq!(graph.output(o1).typ, DataType::Text);
}

#[test]
fn get_input_and_get_output_find_ports_by_name() {
    let mut graph = TestGraph::new();
    let n = bare_node(&mut graph, "n", 0);
    let i1 = input(&mut graph, n, "x", DataType::Number);
    let _i2 = input(&mut graph, n, "x", DataType::Text);
    let i3 = input(&mut graph, n, "y", DataType::Text);
    let o1 = output(&mut graph, n, "x", DataType::Number);
    let node = graph.node(n);
    assert_eq!(node.get_input("x").unwrap(), i1);
    assert_eq!(node.get_input("y").unwrap(), i3);
    assert_eq!(node.get_output("x").unwrap(), o1);
    match node.get_input("z") {
        Err(EguiGraphError::NoParameterNamed(id, name)) => {
            assert_eq!(id, n);
            assert_eq!(name, "z");
        }
        other => panic!("unexpected {:?}", other),
    }
    match node.get_output("y") {
        Err(EguiGraphError::NoParameterNamed(id, name)) => {
            assert_eq!(id, n);
            assert_eq!(name, "y");
        }
        other => panic!("unexpected {:?}", other),
    }
}

#[test]
fn any_param_type_gives_the_type_or_the_error() {
    let mut graph = TestGraph::new();
    let n = bare_node(&mut graph, "n", 0);
    let i = input(&mut graph, n, "in", DataType::Number);
    let o = output(&mut graph, n, "out", DataType::Text);
    assert_eq!(graph.any_param_type(AnyParameterId::Input(i)).unwrap(), DataType::Number);
    assert_eq!(graph.any_param_type(AnyParameterId::Output(o)).unwrap(), DataType::Text);
    graph.remove_input_param(i);
    graph.remove_output_param(o);
    match graph.any_param_type(AnyParameterId::Input(i)) {
        Err(EguiGraphError::InvalidParameterId(p)) => assert_eq!(p, AnyParameterId::Input(i)),
        other => panic!("unexpected {:?}", other),
    }
    match graph.any_param_type(AnyParameterId::Output(o)) {
        Err(EguiGraphError::InvalidParameterId(p)) => assert_eq!(p, AnyParameterId::Output(o)),
        other => panic!("unexpected {:?}", other),
    }
}

#[test]
fn param_typ_eq_compares_the_types() {
    let mut graph = TestGraph::new();
    let a = bare_node(&mut graph, "a", 0);
    let b = bare_node(&mut graph, "b", 0);
    let out_number = output(&mut graph, a, "n", DataType::Number);
    let out_text = output(&mut graph, a, "t", DataType::Text);
    let in_number = input(&mut graph, b, "n", DataType::Number);
    let in_text = input(&mut graph, b, "t", DataType::Text);
    assert!(graph.param_typ_eq(out_number, in_number));
    assert!(graph.param_typ_eq(out_text, in_text));
    assert!(!graph.param_typ_eq(out_number, in_text));
    assert!(!graph.param_typ_eq(out_text, in_number));
}

#[test]
fn an_input_has_at_most_one_connection() {
    let mut graph = TestGraph::new();
    let a = bare_node(&mut graph, "a", 0);
    let b = bare_node(&mut graph, "b", 0);
    let o1 = output(&mut graph, a, "o1", DataType::Number);
    let o2 = output(&mut graph, a, "o2", DataType::Number);
    let i1 = input(&mut graph, b, "i1", DataType::Number);
    let i2 = input(&mut graph, b, "i2", DataType::Number);
    assert_eq!(graph.connection(i1), None);
    graph.add_connection(o1, i1);
    assert_eq!(graph.connection(i1), Some(o1));
    graph.add_connection(o2, i1);
    assert_eq!(graph.connection(i1), Some(o2));
    assert_eq!(graph.connection_list(), vec![(i1, o2)]);
    graph.add_connection(o2, i2);
    let mut edges = graph.connection_list();
    edges.sort_by_key(|(i, _)| if *i == i1 { 0 } else { 1 });
    assert_eq!(edges, vec![(i1, o2), (i2, o2)]);
    assert_eq!(graph.remove_connection(i1), Some(o2));
    assert_eq!(graph.remove_connection(i1), None);
    assert_eq!(graph.connection(i1), None);
    assert_eq!(graph.connection(i2), Some(o2));
}

#[test]
fn remove_input_param_retracts_the_port_and_its_edge() {
    let mut graph = TestGraph::new();
    let a = bare_node(&mut graph, "a", 0);
    let b = bare_node(&mut graph, "b", 0);
    let o = output(&mut graph, a, "o", DataType::Number);
    let i1 = input(&mut graph, b, "i1", DataType::Number);
    let i2 = input(&mut graph, b, "i2", DataType::Number);
    let i3 = input(&mut graph, b, "i3", DataType::Number);
    graph.add_connection(o, i2);
    graph.add_connection(o, i3);
    graph.remove_input_param(i2);
    assert_eq!(graph.node(b).input_ids(), vec![i1, i3]);
    assert!(graph.get_input(i2).is_none());
    assert!(graph.get_input(i1).is_some());
    assert_eq!(graph.connection(i2), None);
    assert_eq!(graph.connection(i3), Some(o));
    assert_eq!(graph.input_count(), 2);
    assert_eq!(graph.output_count(), 1);
}

#[test]
fn remove_output_param_retracts_the_port_and_all_its_edges() {
    let mut graph = TestGraph::new();
    let a = bare_node(&mut graph, "a", 0);
    let b = bare_node(&mut graph, "b", 0);
    let o1 = output(&mut graph, a, "o1", DataType::Number);
    let o2 = output(&mut graph, a, "o2", DataType::Number);
    let i1 = input(&mut graph, b, "i1", DataType::Number);
    let i2 = input(&mut graph, b, "i2", DataType::Number);
    let i3 = input(&mut graph, b, "i3", DataType::Number);
    graph.add_connection(o1, i1);
    graph.add_connection(o2, i2);
    graph.add_connection(o1, i3);
    graph.remove_output_param(o1);
    assert_eq!(graph.node(a).output_ids(), vec![o2]);
    assert!(graph.get_output(o1).is_none());
    assert_eq!(graph.connection(i1), None);
    assert_eq!(graph.connection(i2), Some(o2));
    assert_eq!(graph.connection(i3), None);
    assert_eq!(graph.connection_list(), vec![(i2, o2)]);
    assert_eq!(graph.output_count(), 1);
    assert_eq!(graph.input_count(), 3);
}

#[test]
fn remove_node_cascades_to_ports_and_edges() {
    let mut graph = TestGraph::new();
    let a = bare_node(&mut graph, "a", 10);
    let b = bare_node(&mut graph, "b", 20);
    let c = bare_node(&mut graph, "c", 30);
    let a_out = output(&mut graph, a, "out", DataType::Number);
    let b_in = input(&mut graph, b, "in", DataType::Number);
    let b_out = output(&mut graph, b, "out", DataType::Number);
    let c_in1 = input(&mut graph, c, "in1", DataType::Number);
    let c_in2 = input(&mut graph, c, "in2", DataType::Number);
    graph.add_connection(a_out, b_in);
    graph.add_connection(b_out, c_in1);
    graph.add_connection(a_out, c_in2);

    let (node, mut severed) = graph.remove_node(b);
    assert_eq!(node.id, b);
    assert_eq!(node.label, "b");
    assert_eq!(node.user_data, 20);
    assert_eq!(node.input_ids(), vec![b_in]);
    assert_eq!(node.output_ids(), vec![b_out]);
    severed.sort_by_key(|(i, _)| if *i == b_in { 0 } else { 1 });
    assert_eq!(severed, vec![(b_in, a_out), (c_in1, b_out)]);

    assert!(!graph.contains_node(b));
    assert!(graph.get_node(b).is_none());
    assert!(graph.get_input(b_in).is_none());
    assert!(graph.get_output(b_out).is_none());
    assert_eq!(graph.connection(b_in), None);
    assert_eq!(graph.connection(c_in1), None);
    assert_eq!(graph.connection(c_in2), Some(a_out));
    assert_eq!(graph.connection_list(), vec![(c_in2, a_out)]);
    assert_eq!(graph.node_count(), 2);
    assert_eq!(graph.input_count(), 2);
    assert_eq!(graph.output_count(), 1);
    assert!(graph.contains_node(a) && graph.contains_node(c));
    assert_eq!(graph.node(c).input_ids(), vec![c_in1, c_in2]);
}

#[test]
fn a_removed_handle_is_not_taken_for_a_new_one() {
    let mut graph = TestGraph::new();
    let a = bare_node(&mut graph, "a", 1);
    let a_in = input(&mut graph, a, "in", DataType::Number);
    let _ = graph.remove_node(a);
    let b = bare_node(&mut graph, "b", 2);
    let b_in = input(&mut graph, b, "in", DataType::Number);
    assert_ne!(a, b);
    assert_ne!(a_in, b_in);
    assert!(!graph.contains_node(a));
    assert!(graph.get_node(a).is_none());
    assert!(graph.get_input(a_in).is_none());
    assert_eq!(graph.connection(a_in), None);
    assert_eq!(graph.node(b).user_data, 2);
    assert_eq!(graph.iter_nodes(), vec![b]);
}

#[test]
fn is_should_draw_is_false_for_constants_only() {
    assert!(InputParamKind::ConnectionOnly.is_should_draw());
    assert!(!InputParamKind::ConstantOnly.is_should_draw());
    assert!(InputParamKind::ConnectionOrConstant.is_should_draw());
}

#[test]
fn any_parameter_id_unwraps_and_converts() {
    let mut graph = TestGraph::new();
    let n = bare_node(&mut graph, "n", 0);
    let i = input(&mut graph, n, "in", DataType::Number);
    let o = output(&mut graph, n, "out", DataType::Number);
    assert_eq!(AnyParameterId::Input(i).assume_input(), i);
    assert_eq!(AnyParameterId::Output(o).assume_output(), o);
    assert_eq!(AnyParameterId::from(i), AnyParameterId::Input(i));
    assert_eq!(AnyParameterId::from(o), AnyParameterId::Output(o));
}
