//! The events that the view hands to the editor, and what the editor answers.
//!
//! The view turns what the pointer does into these events. The editor takes
//! one event at a time, changes its state, and returns what the embedder is
//! to be told of.

use vstd::prelude::*;

use glam::Vec2;

use crate::graph::{Graph, Node, NodeView, ARENA_LIMIT};
use crate::graph_editor::{EditorView, GraphEditorState};
use crate::id_type::{AnyParameterId, InputId, NodeId, OutputId};
use crate::traits::NodeTemplateTrait;
use crate::ui_state::{DragState, NodeFinder};

verus! {

/// What the pointer did at a port.
#[derive(Debug, Clone, Copy, PartialEq, Eq, Structural)]
pub enum PortEvent {
    MouseDown,
    MouseEnter,
    MouseLeave,
}

/// What the pointer did at a node.
#[derive(Debug, Clone, Copy)]
pub enum NodeEvent {
    /// The button went down at `shift` inside the node.
    MouseDown { shift: Vec2, shift_key: bool },
    /// The node is to be deleted.
    Delete,
}

/// What the pointer did on the background.
#[derive(Debug, Clone, Copy)]
pub enum BackgroundEvent {
    /// The context menu was asked for at the point.
    ContextMenu(Vec2),
    /// A button went down at `pos`: button 0 draws a box, button 1 moves
    /// the view.
    MouseDown { button: i16, pos: Vec2, is_shift_key_pressed: bool },
    /// The wheel turned by one notch at `pos`, inwards or outwards.
    Wheel { pos: Vec2, zoom_in: bool },
}

/// What the editor tells the embedder.
#[derive(Debug)]
#[allow(inconsistent_fields)]
pub enum GraphEditorResponse<NodeData> {
    ConnectEventStarted(NodeId, AnyParameterId),
    ConnectEventEnded { output: OutputId, input: InputId },
    CreatedNode(NodeId),
    SelectNode(NodeId),
    DeleteNode { node_id: NodeId, node: Node<NodeData> },
    DisconnectEvent { output: OutputId, input: InputId },
    /// The node is to be drawn above the others.
    RaiseNode(NodeId),
    MoveNode { node: NodeId, drag_delta: Vec2 },
}

/// The node that the answer says was deleted.
pub open spec fn deleted_node<NodeData>(answer: GraphEditorResponse<NodeData>) -> NodeView<
    NodeData,
> {
    match answer {
        GraphEditorResponse::DeleteNode { node_id: _, node } => node@,
        _ => arbitrary(),
    }
}

/// The connection that the answer says was taken away, as its input port
/// and its output port.
pub open spec fn disconnected<NodeData>(answer: GraphEditorResponse<NodeData>) -> (
    InputId,
    OutputId,
) {
    match answer {
        GraphEditorResponse::DisconnectEvent { output, input } => (input, output),
        _ => arbitrary(),
    }
}

/// The connections that the answers from the second on say were taken away.
pub open spec fn severed_after_first<NodeData>(
    answers: Seq<GraphEditorResponse<NodeData>>,
) -> Seq<(InputId, OutputId)> {
    Seq::new((answers.len() - 1) as nat, |j: int| disconnected(answers[j + 1]))
}

/// The node that the answer says was created.
pub open spec fn created_node<NodeData>(answer: GraphEditorResponse<NodeData>) -> NodeId {
    match answer {
        GraphEditorResponse::CreatedNode(id) => id,
        _ => arbitrary(),
    }
}

/// The node that the answer says has moved.
pub open spec fn moved_node<NodeData>(answer: GraphEditorResponse<NodeData>) -> NodeId {
    match answer {
        GraphEditorResponse::MoveNode { node, drag_delta: _ } => node,
        _ => arbitrary(),
    }
}

/// The pair of ports that the answers say was connected, if they say so.
pub open spec fn connected<NodeData>(answers: Seq<GraphEditorResponse<NodeData>>) -> Option<
    (OutputId, InputId),
> {
    if answers.len() == 1 {
        match answers[0] {
            GraphEditorResponse::ConnectEventEnded { output, input } => Some((output, input)),
            _ => None,
        }
    } else {
        None
    }
}

/// The pair of ports that the answers say was disconnected first, if they
/// say so.
pub open spec fn disconnected_first<NodeData>(
    answers: Seq<GraphEditorResponse<NodeData>>,
) -> Option<(OutputId, InputId)> {
    if answers.len() == 2 {
        match answers[0] {
            GraphEditorResponse::DisconnectEvent { output, input } => Some((output, input)),
            _ => None,
        }
    } else {
        None
    }
}

impl<NodeData, DataType, ValueType> EditorView<NodeData, DataType, ValueType> {
    /// The node that the port belongs to.
    pub open spec fn node_of_port(self, id: AnyParameterId) -> NodeId {
        match id {
            AnyParameterId::Input(input) => self.graph.inputs()[input].node,
            AnyParameterId::Output(output) => self.graph.outputs()[output].node,
        }
    }

    /// The state after the button went down on the node: the click selects,
    /// and the selected nodes start to move if the node is among them.
    pub open spec fn after_node_down(self, id: NodeId, shift: Vec2, shift_key: bool) -> Self {
        let selected = self.clicked(id, shift_key);
        EditorView {
            selected,
            drag_state: if selected.contains(id) {
                Some(DragState::MoveNode { id, shift })
            } else {
                self.drag_state
            },
            ..self
        }
    }

    /// The state after the event on the background.
    pub open spec fn after_background_event(self, event: BackgroundEvent) -> Self {
        match event {
            BackgroundEvent::ContextMenu(pos) => EditorView {
                node_finder: NodeFinder { pos, is_showing: true },
                ..self
            },
            BackgroundEvent::MouseDown { button, pos, is_shift_key_pressed } => if button == 0 {
                EditorView {
                    node_finder: NodeFinder { is_showing: false, ..self.node_finder },
                    selected: if is_shift_key_pressed {
                        self.selected
                    } else {
                        Set::<NodeId>::empty()
                    },
                    drag_state: Some(DragState::SelectBox { start: pos, end: pos }),
                    ..self
                }
            } else if button == 1 {
                EditorView {
                    node_finder: NodeFinder { is_showing: false, ..self.node_finder },
                    drag_state: Some(DragState::Pan { prev_pos: pos }),
                    ..self
                }
            } else {
                self
            },
            BackgroundEvent::Wheel { pos, zoom_in } => EditorView {
                pan_zoom: self.pan_zoom.spec_wheel(zoom_in, pos),
                ..self
            },
        }
    }
}

impl<NodeData, DataType, ValueType> GraphEditorState<NodeData, DataType, ValueType> {
    /// Takes an event at the node. To delete the node, which the graph has,
    /// is to delete it as `delete_node` does: the answers are the node that
    /// went, and then every connection that went with it. A button going
    /// down, on any handle, selects as a click does and starts to move the
    /// selection if the node is in it: the answer is that the node was
    /// clicked.
    pub fn handle_node_event(&mut self, id: NodeId, event: NodeEvent) -> (r: Vec<
        GraphEditorResponse<NodeData>,
    >)
        requires
            old(self).wf(),
            event is Delete ==> old(self)@.graph.nodes().contains_key(id),
        ensures
            final(self).wf(),
            match event {
                NodeEvent::Delete => {
                    &&& r@.len() >= 1
                    &&& r@[0] matches GraphEditorResponse::DeleteNode { node_id, node: _ }
                        && node_id == id
                    &&& forall|j: int|
                        1 <= j < r@.len() ==> #[trigger] r@[j] is DisconnectEvent
                    &&& final(self)@.is_deletion_of(
                        old(self)@,
                        id,
                        deleted_node(r@[0]),
                        severed_after_first(r@),
                    )
                },
                NodeEvent::MouseDown { shift, shift_key } => {
                    &&& r@.len() == 1
                    &&& r@[0] matches GraphEditorResponse::SelectNode(n) && n == id
                    &&& final(self)@ == old(self)@.after_node_down(id, shift, shift_key)
                },
            },
    {
        let mut answers: Vec<GraphEditorResponse<NodeData>> = Vec::new();
        match event {
            NodeEvent::Delete => {
                let (node, gone) = self.delete_node(id);
                let ghost removed = node@;
                answers.push(GraphEditorResponse::DeleteNode { node_id: id, node });
                let mut i: usize = 0;
                while i < gone.len()
                    invariant
                        0 <= i <= gone@.len(),
                        answers@.len() == i + 1,
                        answers@[0] matches GraphEditorResponse::DeleteNode { node_id, node }
                            && node_id == id && node@ == removed,
                        forall|j: int|
                            0 <= j < i ==> (#[trigger] answers@[j + 1])
                                == (GraphEditorResponse::<NodeData>::DisconnectEvent {
                                output: gone@[j].1,
                                input: gone@[j].0,
                            }),
                    decreases gone@.len() - i,
                {
                    let (input, output) = gone[i];
                    answers.push(GraphEditorResponse::DisconnectEvent { output, input });
                    i += 1;
                }
                proof {
                    assert(severed_after_first(answers@) =~= gone@) by {
                        assert forall|j: int| 0 <= j < gone@.len() implies severed_after_first(
                            answers@,
                        )[j] == gone@[j] by {
                            assert(answers@[j + 1] is DisconnectEvent);
                        }
                    }
                    assert forall|j: int| 1 <= j < answers@.len() implies #[trigger] answers@[j]
                        is DisconnectEvent by {
                        assert(answers@[(j - 1) + 1] is DisconnectEvent);
                    }
                }
            },
            NodeEvent::MouseDown { shift, shift_key } => {
                self.selection(id, shift_key);
                self.start_moving_node(id, shift);
                answers.push(GraphEditorResponse::SelectNode(id));
            },
        }
        answers
    }

    /// Takes an event on the background: the context menu shows the node
    /// finder at the point; button 0 hides it, clears the selection unless
    /// the shift key is held, and starts a box; button 1 hides it and starts
    /// to move the view; any other button does nothing; the wheel zooms by
    /// one step around the pointer.
    pub fn handle_background_event(&mut self, event: BackgroundEvent)
        requires
            old(self).wf(),
        ensures
            final(self).wf(),
            final(self)@ == old(self)@.after_background_event(event),
    {
        match event {
            BackgroundEvent::ContextMenu(pos) => {
                self.open_node_finder(pos);
            },
            BackgroundEvent::MouseDown { button, pos, is_shift_key_pressed } => {
                if button == 0 {
                    self.close_node_finder();
                    if !is_shift_key_pressed {
                        self.clear_selection();
                    }
                    self.start_select_box(pos);
                } else if button == 1 {
                    self.start_pan(pos);
                }
            },
            BackgroundEvent::Wheel { pos, zoom_in } => {
                self.wheel(zoom_in, pos);
            },
        }
    }

    /// Takes an event at the port, which the graph has. A button going down
    /// starts a connection as `start_connection` does: the answers are the
    /// connection that was taken away for it, if one was, and then that a
    /// connection was started at the port of that node. The pointer coming
    /// over the port lets the loose end settle at it, and the pointer
    /// leaving it lets the loose end go, as `snap_connection` and
    /// `unsnap_connection` do: there is nothing to answer. `offset` is where
    /// the corner of the viewport is on the screen, if that is known.
    pub fn handle_port_event(
        &mut self,
        id: AnyParameterId,
        event: PortEvent,
        offset: Option<Vec2>,
    ) -> (r: Vec<GraphEditorResponse<NodeData>>) where DataType: PartialEq
        requires
            old(self).wf(),
            old(self)@.has_port(id),
        ensures
            final(self).wf(),
            match event {
                PortEvent::MouseDown => {
                    &&& final(self)@.is_connection_start_of(
                        old(self)@,
                        id,
                        offset,
                        disconnected_first(r@),
                    )
                    &&& 1 <= r@.len() <= 2
                    &&& r@.last() matches GraphEditorResponse::ConnectEventStarted(node, port)
                        && node == old(self)@.node_of_port(id) && port == id
                    &&& r@.len() == 2 ==> r@[0] is DisconnectEvent
                },
                PortEvent::MouseEnter => {
                    &&& r@.len() == 0
                    &&& exists|snapped: bool| #[trigger]
                        final(self)@.is_snap_of(old(self)@, id, snapped)
                },
                PortEvent::MouseLeave => {
                    &&& r@.len() == 0
                    &&& exists|unsnapped: bool| #[trigger]
                        final(self)@.is_unsnap_of(old(self)@, id, offset, unsnapped)
                },
            },
    {
        let mut answers: Vec<GraphEditorResponse<NodeData>> = Vec::new();
        match event {
            PortEvent::MouseDown => {
                let node = match id {
                    AnyParameterId::Input(input) => self.graph().input(input).node,
                    AnyParameterId::Output(output) => self.graph().output(output).node,
                };
                match self.start_connection(id, offset) {
                    Some((output, input)) => {
                        answers.push(GraphEditorResponse::DisconnectEvent { output, input });
                        answers.push(GraphEditorResponse::ConnectEventStarted(node, id));
                    },
                    None => {
                        answers.push(GraphEditorResponse::ConnectEventStarted(node, id));
                    },
                }
            },
            PortEvent::MouseEnter => {
                let snapped = self.snap_connection(id);
                assert(self@.is_snap_of(old(self)@, id, snapped));
            },
            PortEvent::MouseLeave => {
                let unsnapped = self.unsnap_connection(id, offset);
                assert(self@.is_unsnap_of(old(self)@, id, offset, unsnapped));
            },
        }
        answers
    }

    /// Takes the pointer going to the point while a gesture is under way.
    /// The selected nodes move as `move_node` moves them, and the answers
    /// say of each of them, once, by how much it moved; the loose end of a
    /// connection follows as in `move_connection`, the loose corner of a box
    /// as in `scale_select_box`, the view as in `pan`, and there is nothing
    /// to answer. With no gesture under way nothing happens. The node by
    /// which the selection is moved is a node of the graph.
    pub fn handle_pointer_move(&mut self, pos: Vec2) -> (r: Vec<GraphEditorResponse<NodeData>>)
        requires
            old(self).wf(),
            old(self)@.move_anchor_placed(),
        ensures
            final(self).wf(),
            match old(self)@.drag_state {
                Some(DragState::MoveNode { id, shift }) => {
                    let delta = old(self)@.move_delta(pos, id, shift);
                    &&& final(self)@ == (EditorView {
                        positions: old(self)@.positions_moved(delta),
                        ..old(self)@
                    })
                    &&& forall|j: int|
                        0 <= j < r@.len() ==> (#[trigger] r@[j] matches GraphEditorResponse::MoveNode {
                            node,
                            drag_delta,
                        } && old(self)@.selected.contains(node) && drag_delta == delta)
                    &&& forall|a: int, b: int|
                        0 <= a < b < r@.len() ==> moved_node(r@[a]) != moved_node(r@[b])
                    &&& forall|n: NodeId|
                        old(self)@.selected.contains(n) ==> exists|j: int|
                            0 <= j < r@.len() && moved_node(#[trigger] r@[j]) == n
                },
                Some(DragState::ConnectPort(c)) => {
                    &&& r@.len() == 0
                    &&& final(self)@ == (if c.is_loose() {
                        EditorView {
                            drag_state: Some(DragState::ConnectPort(c.spec_to_pos(pos))),
                            ..old(self)@
                        }
                    } else {
                        old(self)@
                    })
                },
                Some(DragState::SelectBox { start, end: _ }) => {
                    &&& r@.len() == 0
                    &&& final(self)@ == (EditorView {
                        drag_state: Some(DragState::SelectBox { start, end: pos }),
                        ..old(self)@
                    })
                },
                Some(DragState::Pan { prev_pos }) => {
                    &&& r@.len() == 0
                    &&& final(self)@ == old(self)@.panned(pos, prev_pos)
                },
                None => r@.len() == 0 && final(self)@ == old(self)@,
            },
    {
        let mut answers: Vec<GraphEditorResponse<NodeData>> = Vec::new();
        match *self.drag_state() {
            Some(DragState::MoveNode { id: _, shift: _ }) => {
                match self.move_node(pos) {
                    Some(drag_delta) => {
                        let moved = self.selected_nodes();
                        let mut i: usize = 0;
                        while i < moved.len()
                            invariant
                                0 <= i <= moved@.len(),
                                answers@.len() == i,
                                forall|j: int|
                                    0 <= j < i ==> (#[trigger] answers@[j])
                                        == (GraphEditorResponse::<NodeData>::MoveNode {
                                        node: moved@[j],
                                        drag_delta,
                                    }),
                            decreases moved@.len() - i,
                        {
                            answers.push(
                                GraphEditorResponse::MoveNode { node: moved[i], drag_delta },
                            );
                            i += 1;
                        }
                        proof {
                            assert forall|j: int| 0 <= j < answers@.len() implies (
                            #[trigger] answers@[j] matches GraphEditorResponse::MoveNode {
                                node,
                                drag_delta: d,
                            } && old(self)@.selected.contains(node) && d == drag_delta) by {
                                assert(moved@.contains(moved@[j]));
                            }
                            assert forall|a: int, b: int|
                                0 <= a < b < answers@.len() implies moved_node(answers@[a])
                                != moved_node(answers@[b]) by {
                                assert(moved@[a] != moved@[b]);
                            }
                            assert forall|n: NodeId|
                                old(self)@.selected.contains(n) implies exists|j: int|
                                0 <= j < answers@.len() && moved_node(#[trigger] answers@[j])
                                    == n by {
                                assert(moved@.contains(n));
                                let j = choose|j: int| 0 <= j < moved@.len() && moved@[j] == n;
                                assert(moved_node(answers@[j]) == n);
                            }
                        }
                    },
                    None => {},
                }
            },
            Some(DragState::ConnectPort(_)) => {
                self.move_connection(pos);
            },
            Some(DragState::SelectBox { start: _, end: _ }) => {
                self.scale_select_box(pos);
            },
            Some(DragState::Pan { prev_pos: _ }) => {
                self.pan(pos);
            },
            None => {},
        }
        answers
    }

    /// Takes the button going up: the gesture under way ends. The end of a
    /// connection gesture is that of `end_connection`, and the answer is the
    /// connection that was made, if one was; the end of a box is that of
    /// `end_select_box`; otherwise the gesture is over with nothing else
    /// changed. There is nothing else to answer.
    pub fn handle_pointer_up(&mut self) -> (r: Vec<GraphEditorResponse<NodeData>>) where
        DataType: PartialEq,

        requires
            old(self).wf(),
        ensures
            final(self).wf(),
            final(self)@.drag_state is None,
            match old(self)@.drag_state {
                Some(DragState::ConnectPort(_)) => {
                    &&& r@.len() <= 1
                    &&& r@.len() == 1 ==> connected(r@) is Some
                    &&& final(self)@.is_connection_end_of(old(self)@, connected(r@))
                },
                Some(DragState::SelectBox { start, end }) => {
                    &&& r@.len() == 0
                    &&& final(self)@ == (EditorView {
                        selected: old(self)@.selected.union(old(self)@.nodes_in_box(start, end)),
                        drag_state: None,
                        ..old(self)@
                    })
                },
                _ => {
                    &&& r@.len() == 0
                    &&& final(self)@ == (EditorView { drag_state: None, ..old(self)@ })
                },
            },
    {
        let mut answers: Vec<GraphEditorResponse<NodeData>> = Vec::new();
        match *self.drag_state() {
            Some(DragState::ConnectPort(_)) => {
                match self.end_connection() {
                    Some((output, input)) => {
                        answers.push(GraphEditorResponse::ConnectEventEnded { output, input });
                    },
                    None => {},
                }
            },
            Some(DragState::SelectBox { start: _, end: _ }) => {
                self.end_select_box();
            },
            _ => {
                self.end_moving_node();
            },
        }
        answers
    }

    /// Takes the choice of a kind of node in the node finder: the finder is
    /// hidden, and a node of the kind is created as `create_node` creates
    /// it, where the finder was. The answer is the new node.
    pub fn handle_template_chosen<T>(&mut self, template: T, user_state: &T::UserState) -> (r: Vec<
        GraphEditorResponse<NodeData>,
    >) where T: NodeTemplateTrait<NodeData = NodeData, DataType = DataType, ValueType = ValueType>
        requires
            old(self).wf(),
            old(self)@.graph.spec_node_count() < ARENA_LIMIT,
        ensures
            final(self).wf(),
            r@.len() == 1,
            r@[0] matches GraphEditorResponse::CreatedNode(id) && final(self)@.is_creation_of(
                EditorView {
                    node_finder: NodeFinder { is_showing: false, ..old(self)@.node_finder },
                    ..old(self)@
                },
                id,
            ),
            exists|label: String| #[trigger]
                call_ensures(T::node_graph_label, (&template, user_state), label)
                    && final(self)@.graph.nodes()[created_node(r@[0])].label == label@,
            exists|data: NodeData| #[trigger]
                call_ensures(T::user_data, (&template, user_state), data)
                    && final(self)@.graph.nodes()[created_node(r@[0])].user_data == data,
            exists|label: String, data: NodeData, g: &mut Graph<NodeData, DataType, ValueType>|
                #![trigger
                    call_ensures(T::node_graph_label, (&template, user_state), label),
                    call_ensures(T::user_data, (&template, user_state), data),
                    call_ensures(
                        T::build_node,
                        (&template, g, user_state, created_node(r@[0])),
                        (),
                    )]
                call_ensures(T::node_graph_label, (&template, user_state), label)
                    && call_ensures(T::user_data, (&template, user_state), data)
                    && g.is_with_new_node(
                    &old(self)@.graph,
                    created_node(r@[0]),
                    label@,
                    data,
                ) && *final(g) == final(self)@.graph && call_ensures(
                    T::build_node,
                    (&template, g, user_state, created_node(r@[0])),
                    (),
                ),
    {
        self.close_node_finder();
        let ghost closed = self@;
        let id = self.create_node(template, user_state);
        let mut answers: Vec<GraphEditorResponse<NodeData>> = Vec::new();
        answers.push(GraphEditorResponse::CreatedNode(id));
        proof {
            assert(created_node(answers@[0]) == id);
            assert(closed.graph == old(self)@.graph);
            let (label, data, g) = choose|
                label: String,
                data: NodeData,
                g: &mut Graph<NodeData, DataType, ValueType>,
            |
                #![trigger
                    call_ensures(T::node_graph_label, (&template, user_state), label),
                    call_ensures(T::user_data, (&template, user_state), data),
                    call_ensures(T::build_node, (&template, g, user_state, id), ())]
                call_ensures(T::node_graph_label, (&template, user_state), label)
                    && call_ensures(T::user_data, (&template, user_state), data)
                    && g.is_with_new_node(&closed.graph, id, label@, data) && *final(g)
                    == self@.graph && call_ensures(
                    T::build_node,
                    (&template, g, user_state, id),
                    (),
                );
            assert(call_ensures(
                T::build_node,
                (&template, g, user_state, created_node(answers@[0])),
                (),
            ));
        }
        answers
    }
}

} // verus!
