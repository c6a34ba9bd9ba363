use glam::{vec2, Vec2};
use node_graph::{
    AnyParameterId, ConnectTo, ConnectionInProgress, DragState, Graph, GraphEditorState, InputId,
    InputParamKind, NodeId, NodeTemplateTrait, OutputId, PanZoom, PortsData,
};

#[derive(Clone, Debug, PartialEq)]
enum DataType {
    Number,
    Text,
}

type TestGraph = Graph<u32, DataType, i64>;
type Editor = GraphEditorState<u32, DataType, i64>;

struct Template {
    label: &'static str,
    data: u32,
    inputs: Vec<(&'static str, DataType)>,
    outputs: Vec<(&'static str, DataType)>,
}

impl NodeTemplateTrait for Template {
    type NodeData = u32;
    type DataType = DataType;
    type ValueType = i64;
    type UserState = i64;

    fn node_graph_label(&self, _user_state: &i64) -> String {
        self.label.to_string()
    }

    fn user_data(&self, _user_state: &i64) -> u32 {
        self.data
    }

    fn build_node(&self, graph: &mut TestGraph, user_state: &i64, node_id: NodeId) {
        for (name, typ) in &self.inputs {
            graph.add_input_param(
                node_id,
                name.to_string(),
                typ.clone(),
                *user_state,
                InputParamKind::ConnectionOrConstant,
                true,
            );
        }
        for (name, typ) in &self.outputs {
            graph.add_output_param(node_id, name.to_string(), typ.clone());
        }
    }
}

fn plain(label: &'static str) -> Template {
    Template { label, data: 0, inputs: vec![], outputs: vec![] }
}

fn node_at(editor: &mut Editor, label: &'static str, pos: Vec2) -> NodeId {
    editor.open_node_finder(editor.pan_zoom().logical2screen(pos));
    editor.create_node(plain(label), &0)
}

/// Node A with one output of type `out`, node B with one input of type `inp`.
fn two_nodes(out: DataType, inp: DataType) -> (Editor, NodeId, OutputId, NodeId, InputId) {
    let mut graph = TestGraph::new();
    let a = graph.add_node("A".to_string(), 1, |_, _| {});
    let b = graph.add_node("B".to_string(), 2, |_, _| {});
    let a_out = graph.add_output_param(a, "out".to_string(), out);
    let b_in = graph.add_input_param(
        b,
        "in".to_string(),
        inp,
        0,
        InputParamKind::ConnectionOrConstant,
        true,
    );
    (Editor::from_graph(graph), a, a_out, b, b_in)
}

fn connection(editor: &Editor) -> ConnectionInProgress {
    match editor.drag_state() {
        Some(DragState::ConnectPort(c)) => *c,
        other => panic!("no connection is drawn: {:?}", other),
    }
}

#[test]
fn new_editor_is_idle_and_empty() {
    let editor = Editor::new();
    assert_eq!(editor.graph().node_count(), 0);
    assert!(editor.drag_state().is_none());
    assert!(editor.selected_nodes().is_empty());
    assert_eq!(editor.pan_zoom(), PanZoom::identity());
    assert_eq!(editor.node_finder().pos, Vec2::ZERO);
    assert!(!editor.node_finder().is_showing);
    assert!(!editor.allow_self_loops());
    assert!(editor.select_box().is_none());
    assert!(editor.connection_in_progress(Some(Vec2::ZERO)).is_none());
    assert!(editor.graph().connection_list().is_empty());
    assert_eq!(editor.graph().input_count(), 0);
    assert_eq!(editor.graph().output_count(), 0);
    let (_, a, a_out, _, b_in) = two_nodes(DataType::Number, DataType::Number);
    assert_eq!(editor.port_position(AnyParameterId::Output(a_out)), None);
    assert_eq!(editor.port_position(AnyParameterId::Input(b_in)), None);
    assert_eq!(editor.node_position(a), None);

    let other = Editor::default();
    assert_eq!(other.graph().node_count(), 0);
    assert!(other.drag_state().is_none());
    assert!(other.selected_nodes().is_empty());
    assert_eq!(other.pan_zoom(), PanZoom::identity());
    assert_eq!(other.node_finder().pos, Vec2::ZERO);
    assert!(!other.node_finder().is_showing);
    assert!(!other.allow_self_loops());
    assert_eq!(other.port_position(AnyParameterId::Output(a_out)), None);
}

#[test]
fn from_graph_puts_every_node_at_the_origin() {
    let (editor, a, _, b, _) = two_nodes(DataType::Number, DataType::Number);
    assert_eq!(editor.graph().node_count(), 2);
    assert_eq!(editor.node_position(a), Some(Vec2::ZERO));
    assert_eq!(editor.node_position(b), Some(Vec2::ZERO));
    assert!(editor.selected_nodes().is_empty());
    assert!(editor.drag_state().is_none());
    assert_eq!(editor.pan_zoom(), PanZoom::identity());
    assert!(!editor.node_finder().is_showing);
    assert!(!editor.allow_self_loops());
}

#[test]
fn into_graph_gives_the_graph_back() {
    let (mut editor, a, a_out, _, b_in) = two_nodes(DataType::Number, DataType::Number);
    editor.start_connection(AnyParameterId::Output(a_out), None);
    assert!(editor.snap_connection(AnyParameterId::Input(b_in)));
    assert_eq!(editor.end_connection(), Some((a_out, b_in)));
    let graph = editor.into_graph();
    assert_eq!(graph.node_count(), 2);
    assert_eq!(graph.connection(b_in), Some(a_out));
    assert_eq!(graph.node(a).label, "A");
}

#[test]
fn connect_matching_ports() {
    let (mut editor, _, a_out, _, b_in) = two_nodes(DataType::Number, DataType::Number);
    assert_eq!(editor.start_connection(AnyParameterId::Output(a_out), None), None);
    editor.move_connection(vec2(120.0, 40.0));
    assert_eq!(
        connection(&editor),
        ConnectionInProgress::FromOutput { src: a_out, dest: ConnectTo::Pos(vec2(120.0, 40.0)) }
    );
    assert!(editor.snap_connection(AnyParameterId::Input(b_in)));
    assert_eq!(
        connection(&editor),
        ConnectionInProgress::FromOutput { src: a_out, dest: ConnectTo::Id(b_in) }
    );
    assert_eq!(editor.end_connection(), Some((a_out, b_in)));
    assert_eq!(editor.graph().connection(b_in), Some(a_out));
    assert_eq!(editor.graph().connection_list(), vec![(b_in, a_out)]);
    assert!(editor.drag_state().is_none());
}

#[test]
fn mismatched_ports_are_not_connected() {
    let (mut editor, _, a_out, _, b_in) = two_nodes(DataType::Number, DataType::Text);
    assert_eq!(editor.start_connection(AnyParameterId::Output(a_out), None), None);
    editor.move_connection(vec2(120.0, 40.0));
    assert!(!editor.snap_connection(AnyParameterId::Input(b_in)));
    assert_eq!(
        connection(&editor),
        ConnectionInProgress::FromOutput { src: a_out, dest: ConnectTo::Pos(vec2(120.0, 40.0)) }
    );
    assert_eq!(editor.end_connection(), None);
    assert!(editor.graph().connection_list().is_empty());
    assert_eq!(editor.graph().connection(b_in), None);
    assert!(editor.drag_state().is_none());
}

#[test]
fn a_connection_that_is_not_snapped_is_dropped_on_release() {
    let (mut editor, _, a_out, _, b_in) = two_nodes(DataType::Number, DataType::Number);
    editor.start_connection(AnyParameterId::Output(a_out), None);
    editor.move_connection(vec2(5.0, 5.0));
    assert_eq!(editor.end_connection(), None);
    assert_eq!(editor.graph().connection(b_in), None);
    assert!(editor.drag_state().is_none());
    assert_eq!(editor.end_connection(), None);
}

#[test]
fn reconnect_retracts_the_edge_at_once() {
    let (mut editor, _, a_out, _, b_in) = two_nodes(DataType::Number, DataType::Number);
    editor.start_connection(AnyParameterId::Output(a_out), None);
    assert!(editor.snap_connection(AnyParameterId::Input(b_in)));
    assert_eq!(editor.end_connection(), Some((a_out, b_in)));

    assert_eq!(
        editor.start_connection(AnyParameterId::Input(b_in), None),
        Some((a_out, b_in))
    );
    assert_eq!(editor.graph().connection(b_in), None);
    assert!(editor.graph().connection_list().is_empty());
    assert_eq!(
        connection(&editor),
        ConnectionInProgress::FromOutput { src: a_out, dest: ConnectTo::Pos(Vec2::ZERO) }
    );
    assert!(editor.snap_connection(AnyParameterId::Input(b_in)));
    assert_eq!(editor.end_connection(), Some((a_out, b_in)));
    assert_eq!(editor.graph().connection(b_in), Some(a_out));
}

#[test]
fn start_connection_from_a_free_input() {
    let (mut editor, _, a_out, _, b_in) = two_nodes(DataType::Number, DataType::Number);
    assert_eq!(editor.start_connection(AnyParameterId::Input(b_in), None), None);
    assert_eq!(
        connection(&editor),
        ConnectionInProgress::FromInput { src: b_in, dest: ConnectTo::Pos(Vec2::ZERO) }
    );
    assert!(!editor.snap_connection(AnyParameterId::Input(b_in)));
    assert!(editor.snap_connection(AnyParameterId::Output(a_out)));
    assert_eq!(
        connection(&editor),
        ConnectionInProgress::FromInput { src: b_in, dest: ConnectTo::Id(a_out) }
    );
    assert_eq!(editor.end_connection(), Some((a_out, b_in)));
    assert_eq!(editor.graph().connection(b_in), Some(a_out));
}

#[test]
fn end_connection_replaces_the_edge_of_the_input() {
    let mut graph = TestGraph::new();
    let a = graph.add_node("A".to_string(), 1, |_, _| {});
    let b = graph.add_node("B".to_string(), 2, |_, _| {});
    let o1 = graph.add_output_param(a, "o1".to_string(), DataType::Number);
    let o2 = graph.add_output_param(a, "o2".to_string(), DataType::Number);
    let i = graph.add_input_param(
        b,
        "in".to_string(),
        DataType::Number,
        0,
        InputParamKind::ConnectionOnly,
        true,
    );
    let mut editor = Editor::from_graph(graph);
    editor.start_connection(AnyParameterId::Output(o1), None);
    assert!(editor.snap_connection(AnyParameterId::Input(i)));
    assert_eq!(editor.end_connection(), Some((o1, i)));
    editor.start_connection(AnyParameterId::Output(o2), None);
    assert!(editor.snap_connection(AnyParameterId::Input(i)));
    assert_eq!(editor.end_connection(), Some((o2, i)));
    assert_eq!(editor.graph().connection(i), Some(o2));
    assert_eq!(editor.graph().connection_list(), vec![(i, o2)]);
}

#[test]
fn ports_of_one_node_connect_only_where_allowed() {
    let mut graph = TestGraph::new();
    let a = graph.add_node("A".to_string(), 1, |_, _| {});
    let out = graph.add_output_param(a, "out".to_string(), DataType::Number);
    let inp = graph.add_input_param(
        a,
        "in".to_string(),
        DataType::Number,
        0,
        InputParamKind::ConnectionOnly,
        true,
    );
    let mut editor = Editor::from_graph(graph);
    editor.start_connection(AnyParameterId::Output(out), None);
    assert!(!editor.snap_connection(AnyParameterId::Input(inp)));
    assert!(!editor.unsnap_connection(AnyParameterId::Input(inp), None));
    assert_eq!(editor.end_connection(), None);
    assert_eq!(editor.graph().connection(inp), None);

    editor.set_allow_self_loops(true);
    editor.start_connection(AnyParameterId::Output(out), None);
    assert!(editor.snap_connection(AnyParameterId::Input(inp)));
    assert_eq!(editor.end_connection(), Some((out, inp)));
    assert_eq!(editor.graph().connection(inp), Some(out));
}

#[test]
fn move_connection_leaves_a_snapped_end_alone() {
    let (mut editor, _, a_out, _, b_in) = two_nodes(DataType::Number, DataType::Number);
    editor.start_connection(AnyParameterId::Output(a_out), None);
    assert!(editor.snap_connection(AnyParameterId::Input(b_in)));
    editor.move_connection(vec2(9.0, 9.0));
    assert_eq!(
        connection(&editor),
        ConnectionInProgress::FromOutput { src: a_out, dest: ConnectTo::Id(b_in) }
    );
    editor.set_port_position(AnyParameterId::Input(b_in), Some(vec2(110.0, 220.0)));
    assert!(editor.unsnap_connection(AnyParameterId::Input(b_in), Some(vec2(10.0, 20.0))));
    assert_eq!(
        connection(&editor),
        ConnectionInProgress::FromOutput { src: a_out, dest: ConnectTo::Pos(vec2(100.0, 200.0)) }
    );
    editor.move_connection(vec2(9.0, 9.0));
    assert_eq!(
        connection(&editor),
        ConnectionInProgress::FromOutput { src: a_out, dest: ConnectTo::Pos(vec2(9.0, 9.0)) }
    );
    editor.end_moving_node();
    editor.move_connection(vec2(1.0, 1.0));
    assert!(editor.drag_state().is_none());
}

#[test]
fn start_connection_puts_the_loose_end_at_the_port() {
    let (mut editor, _, a_out, _, _) = two_nodes(DataType::Number, DataType::Number);
    editor.set_port_position(AnyParameterId::Output(a_out), Some(vec2(300.0, 150.0)));
    editor.start_connection(AnyParameterId::Output(a_out), Some(vec2(100.0, 50.0)));
    assert_eq!(
        connection(&editor),
        ConnectionInProgress::FromOutput { src: a_out, dest: ConnectTo::Pos(vec2(200.0, 100.0)) }
    );
    editor.start_connection(AnyParameterId::Output(a_out), None);
    assert_eq!(
        connection(&editor),
        ConnectionInProgress::FromOutput { src: a_out, dest: ConnectTo::Pos(Vec2::ZERO) }
    );
}

#[test]
fn connection_in_progress_gives_both_ends_in_the_viewport() {
    let (mut editor, _, a_out, _, b_in) = two_nodes(DataType::Number, DataType::Text);
    let offset = vec2(10.0, 20.0);
    assert_eq!(editor.connection_in_progress(Some(offset)), None);
    editor.set_port_position(AnyParameterId::Output(a_out), Some(vec2(110.0, 220.0)));
    editor.set_port_position(AnyParameterId::Input(b_in), Some(vec2(510.0, 620.0)));

    editor.start_connection(AnyParameterId::Output(a_out), Some(offset));
    editor.move_connection(vec2(7.0, 8.0));
    assert_eq!(
        editor.connection_in_progress(Some(offset)),
        Some((vec2(100.0, 200.0), vec2(7.0, 8.0), DataType::Number))
    );
    assert_eq!(editor.connection_in_progress(None), None);
    assert_eq!(editor.port_pos(AnyParameterId::Input(b_in), Some(offset)), vec2(500.0, 600.0));
    assert_eq!(editor.port_pos(AnyParameterId::Input(b_in), None), Vec2::ZERO);
    editor.end_connection();

    editor.start_connection(AnyParameterId::Input(b_in), Some(offset));
    editor.move_connection(vec2(7.0, 8.0));
    assert_eq!(
        editor.connection_in_progress(Some(offset)),
        Some((vec2(7.0, 8.0), vec2(500.0, 600.0), DataType::Text))
    );
    editor.end_connection();
    assert_eq!(editor.connection_in_progress(Some(offset)), None);
}

#[test]
fn connection_in_progress_resolves_a_snapped_end() {
    let (mut editor, _, a_out, _, b_in) = two_nodes(DataType::Number, DataType::Number);
    let offset = vec2(10.0, 20.0);
    editor.set_port_position(AnyParameterId::Output(a_out), Some(vec2(110.0, 220.0)));
    editor.set_port_position(AnyParameterId::Input(b_in), Some(vec2(510.0, 620.0)));
    editor.start_connection(AnyParameterId::Output(a_out), Some(offset));
    assert!(editor.snap_connection(AnyParameterId::Input(b_in)));
    assert_eq!(
        editor.connection_in_progress(Some(offset)),
        Some((vec2(100.0, 200.0), vec2(500.0, 600.0), DataType::Number))
    );
    editor.set_port_position(AnyParameterId::Input(b_in), None);
    assert_eq!(
        editor.connection_in_progress(Some(offset)),
        Some((vec2(100.0, 200.0), Vec2::ZERO, DataType::Number))
    );
}

#[test]
fn selection_toggles_with_shift_and_replaces_without() {
    let mut editor = Editor::new();
    let a = node_at(&mut editor, "a", vec2(0.0, 0.0));
    let b = node_at(&mut editor, "b", vec2(10.0, 0.0));
    let c = node_at(&mut editor, "c", vec2(20.0, 0.0));
    assert_eq!(editor.selected_nodes(), vec![c]);

    editor.selection(a, false);
    assert_eq!(editor.selected_nodes(), vec![a]);
    editor.selection(b, true);
    assert!(editor.is_selected(a) && editor.is_selected(b) && !editor.is_selected(c));
    editor.selection(a, true);
    assert_eq!(editor.selected_nodes(), vec![b]);
    editor.selection(c, false);
    assert_eq!(editor.selected_nodes(), vec![c]);
    editor.selection(c, false);
    assert_eq!(editor.selected_nodes(), vec![c]);

    editor.inclusive_select(a);
    assert_eq!(editor.selected_nodes().len(), 2);
    editor.unselect(c);
    assert_eq!(editor.selected_nodes(), vec![a]);
    editor.unselect(c);
    assert_eq!(editor.selected_nodes(), vec![a]);
    editor.exclusive_select(b);
    assert_eq!(editor.selected_nodes(), vec![b]);
}

#[test]
fn create_node_places_selects_and_registers() {
    let mut editor = Editor::new();
    let first = node_at(&mut editor, "first", vec2(1.0, 1.0));
    editor.set_pan_zoom(PanZoom { pan: vec2(10.0, 20.0), zoom: Vec2::splat(2.0) });
    editor.open_node_finder(vec2(110.0, 220.0));
    assert!(editor.node_finder().is_showing);
    assert_eq!(editor.node_finder().pos, vec2(110.0, 220.0));

    let template = Template {
        label: "sum",
        data: 9,
        inputs: vec![("a", DataType::Number), ("b", DataType::Text)],
        outputs: vec![("out", DataType::Number)],
    };
    let id = editor.create_node(template, &42);
    assert_ne!(id, first);
    assert_eq!(editor.node_position(id), Some(vec2(50.0, 100.0)));
    assert_eq!(editor.node_position(first), Some(vec2(1.0, 1.0)));
    assert_eq!(editor.selected_nodes(), vec![id]);

    let node = editor.graph().node(id);
    assert_eq!(node.label, "sum");
    assert_eq!(node.user_data, 9);
    let inputs = node.input_ids();
    let outputs = node.output_ids();
    assert_eq!(inputs.len(), 2);
    assert_eq!(outputs.len(), 1);
    assert_eq!(editor.graph().input(inputs[0]).value, 42);
    assert_eq!(editor.graph().input(inputs[1]).typ, DataType::Text);
    for input in &inputs {
        assert_eq!(editor.port_position(AnyParameterId::Input(*input)), Some(None));
    }
    assert_eq!(editor.port_position(AnyParameterId::Output(outputs[0])), Some(None));
    assert_eq!(editor.graph().node_count(), 2);
}

#[test]
fn delete_node_retracts_node_selection_position_and_ports() {
    let mut editor = Editor::new();
    let a = editor.create_node(
        Template { label: "a", data: 1, inputs: vec![], outputs: vec![("out", DataType::Number)] },
        &0,
    );
    let b = editor.create_node(
        Template { label: "b", data: 2, inputs: vec![("in", DataType::Number)], outputs: vec![] },
        &0,
    );
    let a_out = editor.graph().node(a).output_ids()[0];
    let b_in = editor.graph().node(b).input_ids()[0];
    editor.start_connection(AnyParameterId::Output(a_out), None);
    assert!(editor.snap_connection(AnyParameterId::Input(b_in)));
    assert_eq!(editor.end_connection(), Some((a_out, b_in)));
    editor.selection(a, false);
    editor.selection(b, true);
    editor.set_port_position(AnyParameterId::Input(b_in), Some(vec2(1.0, 2.0)));

    let (node, severed) = editor.delete_node(b);
    assert_eq!(node.id, b);
    assert_eq!(node.label, "b");
    assert_eq!(severed, vec![(b_in, a_out)]);
    assert!(!editor.graph().contains_node(b));
    assert!(editor.graph().get_input(b_in).is_none());
    assert!(editor.graph().connection_list().is_empty());
    assert_eq!(editor.selected_nodes(), vec![a]);
    assert_eq!(editor.node_position(b), None);
    assert!(editor.node_position(a).is_some());
    assert_eq!(editor.port_position(AnyParameterId::Input(b_in)), None);
    assert_eq!(editor.port_position(AnyParameterId::Output(a_out)), Some(None));
}

#[test]
fn deleting_a_node_ends_the_gesture_that_holds_it() {
    let (mut editor, a, a_out, b, b_in) = two_nodes(DataType::Number, DataType::Number);
    editor.start_connection(AnyParameterId::Output(a_out), None);
    assert!(editor.snap_connection(AnyParameterId::Input(b_in)));
    let _ = editor.delete_node(b);
    assert!(editor.drag_state().is_none());
    assert_eq!(editor.end_connection(), None);

    editor.start_connection(AnyParameterId::Output(a_out), None);
    editor.move_connection(vec2(3.0, 4.0));
    let mut other = plain("c");
    other.data = 3;
    let c = editor.create_node(other, &0);
    let _ = editor.delete_node(c);
    assert_eq!(
        connection(&editor),
        ConnectionInProgress::FromOutput { src: a_out, dest: ConnectTo::Pos(vec2(3.0, 4.0)) }
    );
    editor.end_connection();

    editor.selection(a, false);
    editor.start_moving_node(a, vec2(1.0, 1.0));
    assert!(editor.drag_state().is_some());
    let _ = editor.delete_node(a);
    assert!(editor.drag_state().is_none());
    assert_eq!(editor.move_node(vec2(5.0, 5.0)), None);
}

#[test]
fn only_a_selected_node_starts_a_move() {
    let mut editor = Editor::new();
    let a = node_at(&mut editor, "a", vec2(0.0, 0.0));
    let b = node_at(&mut editor, "b", vec2(10.0, 0.0));
    editor.selection(a, false);
    editor.start_moving_node(b, vec2(1.0, 1.0));
    assert!(editor.drag_state().is_none());
    assert_eq!(editor.move_node(vec2(50.0, 50.0)), None);
    assert_eq!(editor.node_position(a), Some(vec2(0.0, 0.0)));
    assert_eq!(editor.node_position(b), Some(vec2(10.0, 0.0)));
    editor.start_moving_node(a, vec2(1.0, 1.0));
    assert!(matches!(
        editor.drag_state(),
        Some(DragState::MoveNode { id, shift }) if *id == a && *shift == vec2(1.0, 1.0)
    ));
    editor.end_moving_node();
    assert!(editor.drag_state().is_none());
}

#[test]
fn the_selection_moves_as_one_body() {
    let mut editor = Editor::new();
    let pa = vec2(10.0, 10.0);
    let pb = vec2(-20.0, 35.0);
    let pc = vec2(100.0, 0.0);
    let pd = vec2(7.0, 7.0);
    let a = node_at(&mut editor, "a", pa);
    let b = node_at(&mut editor, "b", pb);
    let c = node_at(&mut editor, "c", pc);
    let d = node_at(&mut editor, "d", pd);
    editor.selection(a, false);
    editor.selection(b, true);
    editor.selection(c, true);
    editor.start_moving_node(b, vec2(4.0, 6.0));

    let delta = editor.move_node(vec2(34.0, 26.0)).unwrap();
    assert_eq!(delta, vec2(50.0, -15.0));
    assert_eq!(editor.node_position(a), Some(pa + delta));
    assert_eq!(editor.node_position(b), Some(pb + delta));
    assert_eq!(editor.node_position(c), Some(pc + delta));
    assert_eq!(editor.node_position(d), Some(pd));

    let again = editor.move_node(vec2(34.0, 26.0)).unwrap();
    assert_eq!(again, Vec2::ZERO);
    assert_eq!(editor.node_position(b), Some(vec2(30.0, 20.0)));
    editor.end_moving_node();
    assert_eq!(editor.move_node(vec2(0.0, 0.0)), None);
}

#[test]
fn a_move_follows_the_pointer_through_pan_and_zoom() {
    let mut editor = Editor::new();
    let a = node_at(&mut editor, "a", vec2(10.0, 10.0));
    editor.set_pan_zoom(PanZoom { pan: vec2(100.0, 200.0), zoom: Vec2::splat(2.0) });
    editor.selection(a, false);
    editor.start_moving_node(a, vec2(5.0, 5.0));
    let delta = editor.move_node(vec2(145.0, 225.0)).unwrap();
    assert_eq!(delta, vec2(10.0, 0.0));
    assert_eq!(editor.node_position(a), Some(vec2(20.0, 10.0)));
}

#[test]
fn box_select_takes_the_nodes_inside() {
    let mut editor = Editor::new();
    let inside = node_at(&mut editor, "inside", vec2(50.0, 50.0));
    let outside = node_at(&mut editor, "outside", vec2(150.0, 50.0));
    let on_border = node_at(&mut editor, "border", vec2(100.0, 50.0));
    let on_corner = node_at(&mut editor, "corner", vec2(0.0, 0.0));
    editor.unselect(on_corner);
    assert!(editor.selected_nodes().is_empty());

    editor.start_select_box(vec2(0.0, 0.0));
    assert_eq!(editor.select_box(), Some((vec2(0.0, 0.0), vec2(0.0, 0.0))));
    editor.scale_select_box(vec2(60.0, 10.0));
    editor.scale_select_box(vec2(100.0, 100.0));
    assert_eq!(editor.select_box(), Some((vec2(0.0, 0.0), vec2(100.0, 100.0))));
    editor.end_select_box();
    assert!(editor.drag_state().is_none());
    assert!(editor.select_box().is_none());
    assert_eq!(editor.selected_nodes(), vec![inside]);
    assert!(!editor.is_selected(outside));
    assert!(!editor.is_selected(on_border));
    assert!(!editor.is_selected(on_corner));
}

#[test]
fn box_select_goes_by_logical_positions() {
    let mut editor = Editor::new();
    let node = node_at(&mut editor, "node", vec2(50.0, 50.0));
    editor.unselect(node);
    let mut moved = editor.pan_zoom();
    moved.pan_screen(vec2(200.0, 200.0));
    editor.set_pan_zoom(moved);
    editor.start_select_box(vec2(0.0, 0.0));
    editor.scale_select_box(vec2(100.0, 100.0));
    editor.end_select_box();
    assert!(editor.selected_nodes().is_empty());

    editor.start_select_box(vec2(200.0, 200.0));
    editor.scale_select_box(vec2(300.0, 300.0));
    editor.end_select_box();
    assert_eq!(editor.selected_nodes(), vec![node]);
}

#[test]
fn box_select_adds_to_the_selection_and_takes_corners_in_any_order() {
    let mut editor = Editor::new();
    let a = node_at(&mut editor, "a", vec2(50.0, 50.0));
    let b = node_at(&mut editor, "b", vec2(500.0, 500.0));
    editor.selection(b, false);
    editor.start_select_box(vec2(100.0, 0.0));
    editor.scale_select_box(vec2(0.0, 100.0));
    editor.end_select_box();
    assert!(editor.is_selected(a));
    assert!(editor.is_selected(b));
    assert_eq!(editor.selected_nodes().len(), 2);

    editor.scale_select_box(vec2(1.0, 1.0));
    assert!(editor.select_box().is_none());
    editor.end_select_box();
    assert_eq!(editor.selected_nodes().len(), 2);
}

#[test]
fn pan_moves_the_view_by_the_pointer_delta() {
    let mut editor = Editor::new();
    editor.set_pan_zoom(PanZoom { pan: vec2(1.0, 2.0), zoom: Vec2::splat(2.0) });
    editor.open_node_finder(vec2(3.0, 3.0));
    editor.pan(vec2(50.0, 50.0));
    assert_eq!(editor.pan_zoom().pan, vec2(1.0, 2.0));

    editor.start_pan(vec2(10.0, 10.0));
    assert!(!editor.node_finder().is_showing);
    assert_eq!(editor.node_finder().pos, vec2(3.0, 3.0));
    editor.pan(vec2(15.0, 7.0));
    assert_eq!(editor.pan_zoom().pan, vec2(6.0, -1.0));
    editor.pan(vec2(15.0, 17.0));
    assert_eq!(editor.pan_zoom().pan, vec2(6.0, 9.0));
    assert_eq!(editor.pan_zoom().zoom, Vec2::splat(2.0));
    assert!(matches!(
        editor.drag_state(),
        Some(DragState::Pan { prev_pos }) if *prev_pos == vec2(15.0, 17.0)
    ));
    editor.end_pan();
    assert!(editor.drag_state().is_none());
    editor.start_select_box(vec2(0.0, 0.0));
    editor.end_pan();
    assert!(editor.select_box().is_some());
}

#[test]
fn connection_in_progress_changes_and_pairs() {
    let (_, _, output, _, input) = two_nodes(DataType::Number, DataType::Number);
    let (_, _, _, _, _) = two_nodes(DataType::Number, DataType::Number);
    let mut c = ConnectionInProgress::FromInput { src: input, dest: ConnectTo::Pos(vec2(1.0, 2.0)) };
    assert_eq!(c.pair(), None);
    assert_eq!(c.pair_with(AnyParameterId::Output(output)), Some((output, input)));
    assert_eq!(c.pair_with(AnyParameterId::Input(input)), None);
    c.to_id(AnyParameterId::Input(input));
    assert_eq!(c, ConnectionInProgress::FromInput { src: input, dest: ConnectTo::Pos(vec2(1.0, 2.0)) });
    c.to_id(output.into());
    assert_eq!(c, ConnectionInProgress::FromInput { src: input, dest: ConnectTo::Id(output) });
    assert_eq!(c.pair(), Some((&output, &input)));
    c.to_pos(vec2(12.0, 34.0));
    assert_eq!(c, ConnectionInProgress::FromInput { src: input, dest: ConnectTo::Pos(vec2(12.0, 34.0)) });

    let mut d = ConnectionInProgress::from((output, vec2(0.0, 0.0)));
    assert_eq!(d, ConnectionInProgress::FromOutput { src: output, dest: ConnectTo::Pos(Vec2::ZERO) });
    assert_eq!(d.pair_with(AnyParameterId::Input(input)), Some((output, input)));
    assert_eq!(d.pair_with(AnyParameterId::Output(output)), None);
    d.to_id(AnyParameterId::Output(output));
    assert_eq!(d.pair(), None);
    d.to_id(AnyParameterId::Input(input));
    assert_eq!(d.pair(), Some((&output, &input)));
    d.to_pos(vec2(5.0, 6.0));
    assert_eq!(d, ConnectionInProgress::FromOutput { src: output, dest: ConnectTo::Pos(vec2(5.0, 6.0)) });

    assert_eq!(
        ConnectionInProgress::from((input, vec2(1.0, 1.0))),
        ConnectionInProgress::FromInput { src: input, dest: ConnectTo::Pos(vec2(1.0, 1.0)) }
    );
    assert_eq!(
        ConnectionInProgress::from((AnyParameterId::Output(output), vec2(1.0, 1.0))),
        ConnectionInProgress::from_port(AnyParameterId::Output(output), vec2(1.0, 1.0))
    );
    assert_eq!(
        ConnectionInProgress::from((AnyParameterId::Input(input), vec2(2.0, 1.0))),
        ConnectionInProgress::FromInput { src: input, dest: ConnectTo::Pos(vec2(2.0, 1.0)) }
    );
}

#[test]
fn connect_to_map_pos() {
    let map = vec![vec2(11.0, 15.0)];
    let f = |id: &usize| map[*id];
    let connect_to_id = ConnectTo::Id(0usize);
    assert_eq!(connect_to_id.map_pos(f), vec2(11.0, 15.0));
    let connect_to_pos: ConnectTo<usize> = ConnectTo::Pos(vec2(32.0, 24.0));
    assert_eq!(connect_to_pos.map_pos(f), vec2(32.0, 24.0));
    let (_, _, output, _, input) = two_nodes(DataType::Number, DataType::Number);
    assert_eq!(ConnectTo::from(input), ConnectTo::Id(input));
    assert_eq!(ConnectTo::from(output), ConnectTo::Id(output));
    assert_eq!(ConnectTo::<InputId>::from(vec2(1.0, 2.0)), ConnectTo::Pos(vec2(1.0, 2.0)));
}

#[test]
fn ports_data_keeps_inputs_and_outputs_apart() {
    let (_, _, output, _, input) = two_nodes(DataType::Number, DataType::Number);
    let mut data: PortsData<u8> = PortsData::new();
    assert_eq!(data.get(AnyParameterId::Input(input)), None);
    assert_eq!(data.insert(AnyParameterId::Input(input), 1), None);
    assert_eq!(data.insert(AnyParameterId::Output(output), 2), None);
    assert_eq!(data.insert(AnyParameterId::Input(input), 3), Some(1));
    assert_eq!(data.get(AnyParameterId::Input(input)), Some(&3));
    assert_eq!(data.get(AnyParameterId::Output(output)), Some(&2));
    assert_eq!(data.remove(AnyParameterId::Input(input)), Some(3));
    assert_eq!(data.remove(AnyParameterId::Input(input)), None);
    assert_eq!(data.get(AnyParameterId::Output(output)), Some(&2));
    assert_eq!(data.remove(AnyParameterId::Output(output)), Some(2));
    let empty: PortsData<u8> = PortsData::default();
    assert_eq!(empty.get(AnyParameterId::Output(output)), None);
}

#[test]
fn any_handle_can_be_selected() {
    let mut editor = Editor::new();
    let a = node_at(&mut editor, "a", vec2(0.0, 0.0));
    let gone = node_at(&mut editor, "gone", vec2(5.0, 5.0));
    let _ = editor.delete_node(gone);
    assert!(editor.selected_nodes().is_empty());

    editor.selection(gone, false);
    assert_eq!(editor.selected_nodes(), vec![gone]);
    editor.selection(a, true);
    assert_eq!(editor.selected_nodes().len(), 2);
    assert!(editor.is_selected(a) && editor.is_selected(gone));
    editor.selection(gone, true);
    assert_eq!(editor.selected_nodes(), vec![a]);
    editor.selection(gone, true);
    assert!(editor.is_selected(gone));
    editor.selection(gone, true);
    editor.selection(gone, true);
    assert_eq!(editor.selected_nodes().len(), 2);

    editor.start_moving_node(gone, vec2(1.0, 1.0));
    assert!(matches!(
        editor.drag_state(),
        Some(DragState::MoveNode { id, shift }) if *id == gone && *shift == vec2(1.0, 1.0)
    ));
    editor.end_moving_node();
    assert!(editor.drag_state().is_none());
    editor.start_moving_node(a, vec2(1.0, 1.0));
    assert_eq!(editor.move_node(vec2(11.0, 21.0)), Some(vec2(10.0, 20.0)));
    assert_eq!(editor.node_position(a), Some(vec2(10.0, 20.0)));
    assert_eq!(editor.node_position(gone), None);
    editor.end_moving_node();

    editor.inclusive_select(gone);
    editor.exclusive_select(gone);
    assert_eq!(editor.selected_nodes(), vec![gone]);
    editor.clear_selection();
    assert!(editor.selected_nodes().is_empty());
}

#[test]
fn set_node_position_places_one_node() {
    let (mut editor, a, _, b, _) = two_nodes(DataType::Number, DataType::Number);
    editor.set_node_position(a, vec2(30.0, -40.0));
    assert_eq!(editor.node_position(a), Some(vec2(30.0, -40.0)));
    assert_eq!(editor.node_position(b), Some(Vec2::ZERO));
    editor.set_node_position(a, vec2(1.0, 2.0));
    assert_eq!(editor.node_position(a), Some(vec2(1.0, 2.0)));
    editor.set_node_position(b, vec2(50.0, 50.0));
    editor.start_select_box(vec2(40.0, 40.0));
    editor.scale_select_box(vec2(60.0, 60.0));
    editor.end_select_box();
    assert_eq!(editor.selected_nodes(), vec![b]);
    assert_eq!(editor.graph().node_count(), 2);
}

#[test]
fn end_connection_with_goes_by_the_answer_given() {
    let (mut editor, _, a_out, _, b_in) = two_nodes(DataType::Number, DataType::Number);
    editor.start_connection(AnyParameterId::Output(a_out), None);
    assert!(editor.snap_connection(AnyParameterId::Input(b_in)));
    assert_eq!(editor.end_connection_with(false), None);
    assert!(editor.drag_state().is_none());
    assert!(editor.graph().connection_list().is_empty());

    editor.start_connection(AnyParameterId::Output(a_out), None);
    assert!(editor.snap_connection(AnyParameterId::Input(b_in)));
    assert_eq!(editor.end_connection_with(true), Some((a_out, b_in)));
    assert_eq!(editor.graph().connection(b_in), Some(a_out));
    assert!(editor.drag_state().is_none());

    editor.start_connection(AnyParameterId::Output(a_out), None);
    editor.move_connection(vec2(1.0, 1.0));
    assert_eq!(editor.end_connection_with(true), None);
    assert_eq!(editor.graph().connection_list(), vec![(b_in, a_out)]);

    editor.start_select_box(vec2(0.0, 0.0));
    assert_eq!(editor.end_connection_with(true), None);
    assert!(editor.drag_state().is_none());
    assert_eq!(editor.end_connection_with(true), None);
}

#[test]
fn a_mismatched_release_leaves_an_earlier_edge_alone() {
    let mut graph = TestGraph::new();
    let a = graph.add_node("A".to_string(), 1, |_, _| {});
    let b = graph.add_node("B".to_string(), 2, |_, _| {});
    let number = graph.add_output_param(a, "n".to_string(), DataType::Number);
    let text = graph.add_output_param(a, "t".to_string(), DataType::Text);
    let input = graph.add_input_param(
        b,
        "in".to_string(),
        DataType::Number,
        0,
        InputParamKind::ConnectionOnly,
        true,
    );
    graph.add_connection(number, input);
    let mut editor = Editor::from_graph(graph);
    editor.start_connection(AnyParameterId::Output(text), None);
    assert!(!editor.snap_connection(AnyParameterId::Input(input)));
    assert_eq!(editor.end_connection(), None);
    assert_eq!(editor.graph().connection_list(), vec![(input, number)]);
}
