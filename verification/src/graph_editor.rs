//! The editor: the graph, where its nodes are, which of them are selected,
//! and the gesture that is under way.

use vstd::prelude::*;

use glam::Vec2;
use std::collections::HashSet;
use vstd::std_specs::cmp::PartialEqSpec;

use crate::arena::{
    is_live_key, point_entries, point_map_get, point_map_insert, point_map_new, point_map_pairs,
    point_map_remove, slot_of, PointMap,
};
use crate::graph::{
    keys_apart, Graph, InputParam, Node, NodeView, OutputParam, ARENA_LIMIT,
};
use crate::id_type::{AnyParameterId, InputId, NodeId, OutputId};
use crate::pan_zoom::PanZoom;
use crate::traits::NodeTemplateTrait;
use crate::ui_state::{ConnectTo, ConnectionInProgress, DragState, NodeFinder, PortsData};
use crate::vector::{
    strictly_between, vec2_add, vec2_difference, vec2_from_ints, vec2_lower, vec2_max, vec2_min,
    vec2_strictly_between, vec2_sub, vec2_sum, vec2_upper, vec2_zero,
};

verus! {

broadcast use vstd::std_specs::hash::group_hash_axioms;

/// Moves every point of the map whose key is in the set by `delta`.
fn shift_selected(positions: &mut PointMap, selected: &HashSet<u64>, delta: Vec2)
    requires
        keys_apart(point_entries(*old(positions)).dom()),
    ensures
        point_entries(*final(positions)).dom() == point_entries(*old(positions)).dom(),
        forall|k: u64| #[trigger]
            point_entries(*final(positions)).contains_key(k) ==> point_entries(
                *final(positions),
            )[k] == (if selected@.contains(k) {
                vec2_sum(point_entries(*old(positions))[k], delta)
            } else {
                point_entries(*old(positions))[k]
            }),
{
    let ghost start = point_entries(*positions);
    let pairs = point_map_pairs(positions);
    let mut i: usize = 0;
    while i < pairs.len()
        invariant
            0 <= i <= pairs@.len(),
            keys_apart(start.dom()),
            point_entries(*positions).dom() == start.dom(),
            forall|a: int, b: int| 0 <= a < b < pairs@.len() ==> pairs@[a].0 != pairs@[b].0,
            forall|j: int|
                0 <= j < pairs@.len() ==> is_live_key((#[trigger] pairs@[j]).0)
                    && start.contains_pair(pairs@[j].0, pairs@[j].1),
            forall|k: u64|
                start.contains_key(k) ==> exists|j: int|
                    0 <= j < pairs@.len() && (#[trigger] pairs@[j]).0 == k,
            forall|j: int|
                0 <= j < i ==> point_entries(*positions)[(#[trigger] pairs@[j]).0] == (
                if selected@.contains(pairs@[j].0) {
                    vec2_sum(pairs@[j].1, delta)
                } else {
                    pairs@[j].1
                }),
            forall|j: int|
                i <= j < pairs@.len() ==> point_entries(*positions)[(#[trigger] pairs@[j]).0]
                    == pairs@[j].1,
        decreases pairs@.len() - i,
    {
        let (k, v) = pairs[i];
        proof {
            assert(is_live_key(pairs@[i as int].0));
            assert(start.contains_pair(pairs@[i as int].0, pairs@[i as int].1));
        }
        if selected.contains(&k) {
            let ghost before = point_entries(*positions);
            let moved = vec2_add(v, delta);
            let _ = point_map_insert(positions, k, moved);
            proof {
                assert(point_entries(*positions).dom() =~= start.dom());
                assert forall|j: int| 0 <= j < i + 1 implies point_entries(*positions)[(
                #[trigger] pairs@[j]).0] == (if selected@.contains(pairs@[j].0) {
                    vec2_sum(pairs@[j].1, delta)
                } else {
                    pairs@[j].1
                }) by {
                    if j < i {
                        assert(pairs@[j].0 != pairs@[i as int].0);
                    }
                }
                assert forall|j: int| i + 1 <= j < pairs@.len() implies point_entries(
                    *positions,
                )[(#[trigger] pairs@[j]).0] == pairs@[j].1 by {
                    assert(pairs@[i as int].0 != pairs@[j].0);
                }
            }
        }
        i += 1;
    }
    proof {
        assert forall|k: u64| #[trigger]
            point_entries(*positions).contains_key(k) implies point_entries(*positions)[k] == (
        if selected@.contains(k) {
            vec2_sum(start[k], delta)
        } else {
            start[k]
        }) by {
            let j = choose|j: int| 0 <= j < pairs@.len() && (#[trigger] pairs@[j]).0 == k;
            assert(start.contains_pair(pairs@[j].0, pairs@[j].1));
        }
    }
}

/// Adds to the set the key of every point of the map that lies inside the
/// box from `lo` to `hi`.
fn select_inside(positions: &PointMap, selected: &mut HashSet<u64>, lo: Vec2, hi: Vec2)
    ensures
        forall|k: u64| #[trigger]
            final(selected)@.contains(k) <==> old(selected)@.contains(k) || (point_entries(
                *positions,
            ).contains_key(k) && vec2_strictly_between(lo, point_entries(*positions)[k], hi)),
{
    let ghost start = selected@;
    let pairs = point_map_pairs(positions);
    let mut i: usize = 0;
    while i < pairs.len()
        invariant
            0 <= i <= pairs@.len(),
            forall|j: int|
                0 <= j < pairs@.len() ==> point_entries(*positions).contains_pair(
                    (#[trigger] pairs@[j]).0,
                    pairs@[j].1,
                ),
            forall|k: u64|
                point_entries(*positions).contains_key(k) ==> exists|j: int|
                    0 <= j < pairs@.len() && (#[trigger] pairs@[j]).0 == k,
            forall|k: u64| #[trigger]
                selected@.contains(k) <==> start.contains(k) || (exists|j: int|
                    0 <= j < i && (#[trigger] pairs@[j]).0 == k && vec2_strictly_between(
                        lo,
                        pairs@[j].1,
                        hi,
                    )),
        decreases pairs@.len() - i,
    {
        let (k, v) = pairs[i];
        if strictly_between(lo, v, hi) {
            let ghost before = selected@;
            let _ = selected.insert(k);
            proof {
                assert forall|q: u64| #[trigger]
                    selected@.contains(q) <==> start.contains(q) || (exists|j: int|
                        0 <= j < i + 1 && (#[trigger] pairs@[j]).0 == q && vec2_strictly_between(
                            lo,
                            pairs@[j].1,
                            hi,
                        )) by {
                    if selected@.contains(q) && !start.contains(q) {
                        if q == k {
                            assert(pairs@[i as int].0 == q);
                        } else {
                            assert(before.contains(q));
                            let j = choose|j: int|
                                0 <= j < i && (#[trigger] pairs@[j]).0 == q
                                    && vec2_strictly_between(lo, pairs@[j].1, hi);
                            assert(0 <= j < i + 1);
                        }
                    }
                    if exists|j: int|
                        0 <= j < i + 1 && (#[trigger] pairs@[j]).0 == q && vec2_strictly_between(
                            lo,
                            pairs@[j].1,
                            hi,
                        ) {
                        let j = choose|j: int|
                            0 <= j < i + 1 && (#[trigger] pairs@[j]).0 == q
                                && vec2_strictly_between(lo, pairs@[j].1, hi);
                        if j < i {
                            assert(before.contains(q));
                        }
                    }
                }
            }
        } else {
            proof {
                assert forall|q: u64| #[trigger]
                    selected@.contains(q) <==> start.contains(q) || (exists|j: int|
                        0 <= j < i + 1 && (#[trigger] pairs@[j]).0 == q && vec2_strictly_between(
                            lo,
                            pairs@[j].1,
                            hi,
                        )) by {
                    if exists|j: int|
                        0 <= j < i + 1 && (#[trigger] pairs@[j]).0 == q && vec2_strictly_between(
                            lo,
                            pairs@[j].1,
                            hi,
                        ) {
                        let j = choose|j: int|
                            0 <= j < i + 1 && (#[trigger] pairs@[j]).0 == q
                                && vec2_strictly_between(lo, pairs@[j].1, hi);
                        assert(j < i);
                    }
                }
            }
        }
        i += 1;
    }
    proof {
        assert forall|k: u64| #[trigger]
            selected@.contains(k) <==> start.contains(k) || (point_entries(
                *positions,
            ).contains_key(k) && vec2_strictly_between(lo, point_entries(*positions)[k], hi)) by {
            if selected@.contains(k) && !start.contains(k) {
                let j = choose|j: int|
                    0 <= j < pairs@.len() && (#[trigger] pairs@[j]).0 == k
                        && vec2_strictly_between(lo, pairs@[j].1, hi);
                assert(point_entries(*positions).contains_pair(pairs@[j].0, pairs@[j].1));
            }
            if point_entries(*positions).contains_key(k) && vec2_strictly_between(
                lo,
                point_entries(*positions)[k],
                hi,
            ) {
                let j = choose|j: int| 0 <= j < pairs@.len() && (#[trigger] pairs@[j]).0 == k;
                assert(point_entries(*positions).contains_pair(pairs@[j].0, pairs@[j].1));
            }
        }
    }
}

/// The map with no position known for each of the listed ports.
pub open spec fn marked_unknown<Id>(m: Map<Id, Option<Vec2>>, ids: Seq<Id>) -> Map<
    Id,
    Option<Vec2>,
> {
    Map::new(
        |p: Id| m.contains_key(p) || ids.contains(p),
        |p: Id|
            if ids.contains(p) {
                None
            } else {
                m[p]
            },
    )
}

/// Registers each of the input ports, with no position known for it.
fn register_inputs(registry: &mut PortsData<Option<Vec2>>, ids: &Vec<InputId>)
    ensures
        final(registry).inputs() == marked_unknown(old(registry).inputs(), ids@),
        final(registry).outputs() == old(registry).outputs(),
{
    let ghost start = registry.inputs();
    let mut i: usize = 0;
    assert(ids@.take(0) =~= Seq::<InputId>::empty());
    assert(registry.inputs() =~= marked_unknown(start, ids@.take(0)));
    while i < ids.len()
        invariant
            0 <= i <= ids@.len(),
            registry.inputs() == marked_unknown(start, ids@.take(i as int)),
            registry.outputs() == old(registry).outputs(),
        decreases ids@.len() - i,
    {
        let _ = registry.insert(AnyParameterId::Input(ids[i]), None);
        proof {
            let done = ids@.take(i as int);
            let next = ids@.take(i + 1);
            assert(next =~= done.push(ids@[i as int]));
            assert forall|p: InputId| next.contains(p) <==> done.contains(p) || p
                == ids@[i as int] by {
                if next.contains(p) {
                    let j = choose|j: int| 0 <= j < next.len() && next[j] == p;
                    if j < i {
                        assert(done[j] == p);
                    }
                }
                if done.contains(p) {
                    let j = choose|j: int| 0 <= j < done.len() && done[j] == p;
                    assert(next[j] == p);
                }
                if p == ids@[i as int] {
                    assert(next[i as int] == p);
                }
            }
            assert(registry.inputs() =~= marked_unknown(start, next));
        }
        i += 1;
    }
    assert(ids@.take(ids@.len() as int) =~= ids@);
}

/// Registers each of the output ports, with no position known for it.
fn register_outputs(registry: &mut PortsData<Option<Vec2>>, ids: &Vec<OutputId>)
    ensures
        final(registry).outputs() == marked_unknown(old(registry).outputs(), ids@),
        final(registry).inputs() == old(registry).inputs(),
{
    let ghost start = registry.outputs();
    let mut i: usize = 0;
    assert(ids@.take(0) =~= Seq::<OutputId>::empty());
    assert(registry.outputs() =~= marked_unknown(start, ids@.take(0)));
    while i < ids.len()
        invariant
            0 <= i <= ids@.len(),
            registry.outputs() == marked_unknown(start, ids@.take(i as int)),
            registry.inputs() == old(registry).inputs(),
        decreases ids@.len() - i,
    {
        let _ = registry.insert(AnyParameterId::Output(ids[i]), None);
        proof {
            let done = ids@.take(i as int);
            let next = ids@.take(i + 1);
            assert(next =~= done.push(ids@[i as int]));
            assert forall|p: OutputId| next.contains(p) <==> done.contains(p) || p
                == ids@[i as int] by {
                if next.contains(p) {
                    let j = choose|j: int| 0 <= j < next.len() && next[j] == p;
                    if j < i {
                        assert(done[j] == p);
                    }
                }
                if done.contains(p) {
                    let j = choose|j: int| 0 <= j < done.len() && done[j] == p;
                    assert(next[j] == p);
                }
                if p == ids@[i as int] {
                    assert(next[i as int] == p);
                }
            }
            assert(registry.outputs() =~= marked_unknown(start, next));
        }
        i += 1;
    }
    assert(ids@.take(ids@.len() as int) =~= ids@);
}

/// Takes the entry of each of the input ports out of the registry.
fn forget_inputs(registry: &mut PortsData<Option<Vec2>>, ids: &Vec<InputId>)
    ensures
        final(registry).inputs() == old(registry).inputs().remove_keys(ids@.to_set()),
        final(registry).outputs() == old(registry).outputs(),
{
    let ghost start = registry.inputs();
    let mut i: usize = 0;
    assert(ids@.take(0).to_set() =~= Set::<InputId>::empty());
    assert(registry.inputs() =~= start.remove_keys(ids@.take(0).to_set()));
    while i < ids.len()
        invariant
            0 <= i <= ids@.len(),
            registry.inputs() == start.remove_keys(ids@.take(i as int).to_set()),
            registry.outputs() == old(registry).outputs(),
        decreases ids@.len() - i,
    {
        let _ = registry.remove(AnyParameterId::Input(ids[i]));
        proof {
            let done = ids@.take(i as int);
            let next = ids@.take(i + 1);
            assert(next =~= done.push(ids@[i as int]));
            assert forall|p: InputId| next.to_set().contains(p) <==> done.to_set().contains(p) || p
                == ids@[i as int] by {
                if next.contains(p) {
                    let j = choose|j: int| 0 <= j < next.len() && next[j] == p;
                    if j < i {
                        assert(done[j] == p);
                    }
                }
                if done.contains(p) {
                    let j = choose|j: int| 0 <= j < done.len() && done[j] == p;
                    assert(next[j] == p);
                }
                if p == ids@[i as int] {
                    assert(next[i as int] == p);
                }
            }
            assert(registry.inputs() =~= start.remove_keys(next.to_set()));
        }
        i += 1;
    }
    assert(ids@.take(ids@.len() as int) =~= ids@);
}

/// Takes the entry of each of the output ports out of the registry.
fn forget_outputs(registry: &mut PortsData<Option<Vec2>>, ids: &Vec<OutputId>)
    ensures
        final(registry).outputs() == old(registry).outputs().remove_keys(ids@.to_set()),
        final(registry).inputs() == old(registry).inputs(),
{
    let ghost start = registry.outputs();
    let mut i: usize = 0;
    assert(ids@.take(0).to_set() =~= Set::<OutputId>::empty());
    assert(registry.outputs() =~= start.remove_keys(ids@.take(0).to_set()));
    while i < ids.len()
        invariant
            0 <= i <= ids@.len(),
            registry.outputs() == start.remove_keys(ids@.take(i as int).to_set()),
            registry.inputs() == old(registry).inputs(),
        decreases ids@.len() - i,
    {
        let _ = registry.remove(AnyParameterId::Output(ids[i]));
        proof {
            let done = ids@.take(i as int);
            let next = ids@.take(i + 1);
            assert(next =~= done.push(ids@[i as int]));
            assert forall|p: OutputId|
                next.to_set().contains(p) <==> done.to_set().contains(p) || p
                    == ids@[i as int] by {
                if next.contains(p) {
                    let j = choose|j: int| 0 <= j < next.len() && next[j] == p;
                    if j < i {
                        assert(done[j] == p);
                    }
                }
                if done.contains(p) {
                    let j = choose|j: int| 0 <= j < done.len() && done[j] == p;
                    assert(next[j] == p);
                }
                if p == ids@[i as int] {
                    assert(next[i as int] == p);
                }
            }
            assert(registry.outputs() =~= start.remove_keys(next.to_set()));
        }
        i += 1;
    }
    assert(ids@.take(ids@.len() as int) =~= ids@);
}

/// The members of the set, each once.
fn members(set: &HashSet<u64>) -> (r: Vec<u64>)
    ensures
        r@.no_duplicates(),
        r@.to_set() == set@,
{
    let mut found: Vec<u64> = Vec::new();
    for k in it: set.iter()
        invariant
            found@.len() == it.index(),
            it.seq().unref().to_set() == set@,
            it.seq().no_duplicates(),
            forall|j: int| 0 <= j < found@.len() ==> found@[j] == *it.seq()[j],
            it.index() == it.seq().len() ==> found@ == it.seq().unref(),
    {
        found.push(*k);
        assert(found@.len() == it.seq().len() ==> found@ =~= it.seq().unref());
    }
    found
}

/// The state of the editor.
pub struct GraphEditorState<NodeData, DataType, ValueType> {
    graph: Graph<NodeData, DataType, ValueType>,
    selected_nodes: HashSet<u64>,
    node_positions: PointMap,
    drag_state: Option<DragState>,
    port_positions: PortsData<Option<Vec2>>,
    node_finder: NodeFinder,
    pan_zoom: PanZoom,
    allow_self_loops: bool,
}

/// What the editor's state is, as the contracts see it.
pub struct EditorView<NodeData, DataType, ValueType> {
    pub graph: Graph<NodeData, DataType, ValueType>,
    /// The selected nodes.
    pub selected: Set<NodeId>,
    /// Where each node is, in logical space.
    pub positions: Map<NodeId, Vec2>,
    /// The gesture that is under way, if one is.
    pub drag_state: Option<DragState>,
    /// Where each port is on the screen, as far as the view has said so.
    pub port_positions: PortsData<Option<Vec2>>,
    /// The node finder.
    pub node_finder: NodeFinder,
    /// The pan and zoom of the viewport.
    pub pan_zoom: PanZoom,
    /// Whether a connection may join two ports of one node.
    pub allow_self_loops: bool,
}

impl<NodeData, DataType, ValueType> View for GraphEditorState<NodeData, DataType, ValueType> {
    type V = EditorView<NodeData, DataType, ValueType>;

    closed spec fn view(&self) -> EditorView<NodeData, DataType, ValueType> {
        EditorView {
            graph: self.graph,
            selected: Set::new(|id: NodeId| self.selected_nodes@.contains(id.raw)),
            positions: Map::new(
                |id: NodeId| point_entries(self.node_positions).contains_key(id.raw),
                |id: NodeId| point_entries(self.node_positions)[id.raw],
            ),
            drag_state: self.drag_state,
            port_positions: self.port_positions,
            node_finder: self.node_finder,
            pan_zoom: self.pan_zoom,
            allow_self_loops: self.allow_self_loops,
        }
    }
}

impl<NodeData, DataType, ValueType> EditorView<NodeData, DataType, ValueType> {
    /// Whether the connection that is drawn, if one is, speaks only of ports
    /// that the graph has.
    pub open spec fn gesture_in_graph(self) -> bool {
        match self.drag_state {
            Some(DragState::ConnectPort(ConnectionInProgress::FromInput { src, dest })) => {
                &&& self.graph.inputs().contains_key(src)
                &&& dest matches ConnectTo::Id(output) ==> self.graph.outputs().contains_key(
                    output,
                )
            },
            Some(DragState::ConnectPort(ConnectionInProgress::FromOutput { src, dest })) => {
                &&& self.graph.outputs().contains_key(src)
                &&& dest matches ConnectTo::Id(input) ==> self.graph.inputs().contains_key(input)
            },
            _ => true,
        }
    }

    /// By how much the selected nodes move when the pointer, which took hold
    /// of the node `id` at `shift`, is at the screen point `pos`: from where
    /// the node is to the logical point under `pos - shift`.
    pub open spec fn move_delta(self, pos: Vec2, id: NodeId, shift: Vec2) -> Vec2 {
        vec2_difference(
            self.pan_zoom.spec_screen2logical(vec2_difference(pos, shift)),
            self.positions[id],
        )
    }

    /// The positions with every selected node moved by `delta`.
    pub open spec fn positions_moved(self, delta: Vec2) -> Map<NodeId, Vec2> {
        Map::new(
            |n: NodeId| self.positions.contains_key(n),
            |n: NodeId|
                if self.selected.contains(n) {
                    vec2_sum(self.positions[n], delta)
                } else {
                    self.positions[n]
                },
        )
    }

    /// The lower corner, in logical space, of the box whose corners on the
    /// screen are `start` and `end`.
    pub open spec fn box_min(self, start: Vec2, end: Vec2) -> Vec2 {
        self.pan_zoom.spec_screen2logical(vec2_min(start, end))
    }

    /// The upper corner, in logical space, of the box whose corners on the
    /// screen are `start` and `end`.
    pub open spec fn box_max(self, start: Vec2, end: Vec2) -> Vec2 {
        self.pan_zoom.spec_screen2logical(vec2_max(start, end))
    }

    /// The nodes that lie inside the box whose corners on the screen are
    /// `start` and `end`, its border left out.
    pub open spec fn nodes_in_box(self, start: Vec2, end: Vec2) -> Set<NodeId> {
        Set::new(
            |n: NodeId|
                self.positions.contains_key(n) && vec2_strictly_between(
                    self.box_min(start, end),
                    self.positions[n],
                    self.box_max(start, end),
                ),
        )
    }

    /// Whether `other` differs from this state in its graph at most.
    pub open spec fn same_but_graph(self, other: Self) -> bool {
        &&& self.selected == other.selected
        &&& self.positions == other.positions
        &&& self.drag_state == other.drag_state
        &&& self.port_positions == other.port_positions
        &&& self.node_finder == other.node_finder
        &&& self.pan_zoom == other.pan_zoom
        &&& self.allow_self_loops == other.allow_self_loops
    }

    /// The state after the view was moved by as much as the pointer went
    /// from `prev_pos` to `pos`.
    pub open spec fn panned(self, pos: Vec2, prev_pos: Vec2) -> Self {
        EditorView {
            drag_state: Some(DragState::Pan { prev_pos: pos }),
            pan_zoom: PanZoom {
                pan: vec2_sum(self.pan_zoom.pan, vec2_difference(pos, prev_pos)),
                zoom: self.pan_zoom.zoom,
            },
            ..self
        }
    }

    /// Whether the node by which the selection is moved, if it is moved, has
    /// a position: the graph has the node.
    pub open spec fn move_anchor_placed(self) -> bool {
        match self.drag_state {
            Some(DragState::MoveNode { id, shift: _ }) => self.positions.contains_key(id),
            _ => true,
        }
    }

    /// Whether this is the state in which an editor opens: nothing is
    /// selected, every node of the graph is at the origin, no gesture is
    /// under way, the view is neither moved nor scaled, the node finder is
    /// hidden at the origin, no port position is known, and connections
    /// within one node are refused.
    pub open spec fn is_opening(self) -> bool {
        &&& self.selected == Set::<NodeId>::empty()
        &&& self.positions == Map::new(
            |id: NodeId| self.graph.nodes().contains_key(id),
            |id: NodeId| vec2_zero(),
        )
        &&& self.drag_state is None
        &&& self.pan_zoom == PanZoom::spec_identity()
        &&& self.node_finder.pos == vec2_zero()
        &&& !self.node_finder.is_showing
        &&& !self.allow_self_loops
        &&& self.port_positions.inputs() == Map::<InputId, Option<Vec2>>::empty()
        &&& self.port_positions.outputs() == Map::<OutputId, Option<Vec2>>::empty()
    }

    /// Whether `other` differs from this state in its registry of port
    /// positions at most.
    pub open spec fn same_but_ports(self, other: Self) -> bool {
        &&& self.graph == other.graph
        &&& self.selected == other.selected
        &&& self.positions == other.positions
        &&& self.drag_state == other.drag_state
        &&& self.node_finder == other.node_finder
        &&& self.pan_zoom == other.pan_zoom
        &&& self.allow_self_loops == other.allow_self_loops
    }

    /// Whether the graph has the port.
    pub open spec fn has_port(self, id: AnyParameterId) -> bool {
        match id {
            AnyParameterId::Input(input) => self.graph.inputs().contains_key(input),
            AnyParameterId::Output(output) => self.graph.outputs().contains_key(output),
        }
    }

    /// Where the port is drawn in the viewport, whose corner is at `offset`
    /// on the screen: the origin while either of the two is not known.
    pub open spec fn port_screen_pos(self, id: AnyParameterId, offset: Option<Vec2>) -> Vec2 {
        match (self.port_positions.value_of(id), offset) {
            (Some(Some(p)), Some(o)) => vec2_difference(p, o),
            _ => vec2_zero(),
        }
    }

    /// Whether a connection is being drawn that started from a port of the
    /// other direction than the port.
    pub open spec fn faces(self, id: AnyParameterId) -> bool {
        match self.drag_state {
            Some(DragState::ConnectPort(c)) => c.spec_pair_with(id) is Some,
            _ => false,
        }
    }

    /// Whether a connection is being drawn whose loose end may settle at the
    /// port: the port is of the other direction than the one it started
    /// from, it takes or gives the same type of data, and it belongs to
    /// another node unless connections within one node are allowed.
    pub open spec fn can_snap(self, id: AnyParameterId) -> bool where DataType: PartialEq {
        match self.drag_state {
            Some(DragState::ConnectPort(c)) => match c.spec_pair_with(id) {
                Some((output, input)) => (self.allow_self_loops
                    || self.graph.outputs()[output].node != self.graph.inputs()[input].node)
                    && self.graph.types_match(output, input),
                None => false,
            },
            _ => false,
        }
    }

    /// The two ports that the connection being drawn joins, if one is drawn
    /// and its loose end is at a port.
    pub open spec fn snapped_pair(self) -> Option<(OutputId, InputId)> {
        match self.drag_state {
            Some(DragState::ConnectPort(c)) => c.spec_pair(),
            _ => None,
        }
    }

    /// Whether ending the connection gesture can make a connection, or can
    /// make none, as `committed` says: with the loose end at a port, it is
    /// what comparing the types of data of the two ports answers; otherwise
    /// none is made.
    pub open spec fn commit_answers(self, committed: bool) -> bool where DataType: PartialEq {
        match self.snapped_pair() {
            Some((output, input)) => self.graph.comparison_answers(output, input, committed),
            None => !committed,
        }
    }

    /// Whether the loose end of the connection drawn can settle at the port,
    /// or can stay away from it, as `snapped` says: where the port is of the
    /// other direction than the one the connection started from, and of
    /// another node unless connections within one node are allowed, it is
    /// what comparing the types of data of the two ports answers; otherwise
    /// it stays away.
    pub open spec fn snap_answers(self, id: AnyParameterId, snapped: bool) -> bool where
        DataType: PartialEq,
     {
        match self.drag_state {
            Some(DragState::ConnectPort(c)) => match c.spec_pair_with(id) {
                Some((output, input)) => if self.allow_self_loops
                    || self.graph.outputs()[output].node != self.graph.inputs()[input].node {
                    self.graph.comparison_answers(output, input, snapped)
                } else {
                    !snapped
                },
                None => !snapped,
            },
            _ => !snapped,
        }
    }

    /// Whether a connection is being drawn whose loose end is at a port
    /// that takes or gives the same type of data as the port it started from.
    pub open spec fn can_commit(self) -> bool where DataType: PartialEq {
        match self.drag_state {
            Some(DragState::ConnectPort(c)) => match c.spec_pair() {
                Some((output, input)) => self.graph.types_match(output, input),
                None => false,
            },
            _ => false,
        }
    }

    /// Where the loose end of a connection is drawn in the viewport.
    pub open spec fn input_end_pos(self, dest: ConnectTo<InputId>, offset: Option<Vec2>) -> Vec2 {
        match dest {
            ConnectTo::Id(id) => self.port_screen_pos(AnyParameterId::Input(id), offset),
            ConnectTo::Pos(p) => p,
        }
    }

    /// Where the loose end of a connection is drawn in the viewport.
    pub open spec fn output_end_pos(self, dest: ConnectTo<OutputId>, offset: Option<Vec2>) -> Vec2 {
        match dest {
            ConnectTo::Id(id) => self.port_screen_pos(AnyParameterId::Output(id), offset),
            ConnectTo::Pos(p) => p,
        }
    }

    /// Whether the gesture under way speaks of the node or of one of its ports.
    pub open spec fn gesture_on_node(self, node: NodeId) -> bool {
        match self.drag_state {
            Some(DragState::MoveNode { id, shift: _ }) => id == node,
            Some(DragState::ConnectPort(ConnectionInProgress::FromInput { src, dest })) => {
                ||| self.graph.inputs()[src].node == node
                ||| match dest {
                    ConnectTo::Id(output) => self.graph.outputs()[output].node == node,
                    ConnectTo::Pos(_) => false,
                }
            },
            Some(DragState::ConnectPort(ConnectionInProgress::FromOutput { src, dest })) => {
                ||| self.graph.outputs()[src].node == node
                ||| match dest {
                    ConnectTo::Id(input) => self.graph.inputs()[input].node == node,
                    ConnectTo::Pos(_) => false,
                }
            },
            _ => false,
        }
    }

    /// Whether this state is what deleting the node `node_id` makes of
    /// `before`, where `removed` is the node and `severed` the connections
    /// that went with it, each as its input port and its output port: the
    /// graph is without the node, its ports and the connections at them,
    /// which are those of `severed`, each once; the node is neither selected
    /// nor has it a position; its ports have no entry in the registry of port
    /// positions; and a gesture that spoke of the node or its ports is over.
    pub open spec fn is_deletion_of(
        self,
        before: Self,
        node_id: NodeId,
        removed: NodeView<NodeData>,
        severed: Seq<(InputId, OutputId)>,
    ) -> bool {
        &&& removed == before.graph.nodes()[node_id]
        &&& self.graph.nodes() == before.graph.nodes().remove(node_id)
        &&& self.graph.inputs() == before.graph.inputs_off_node(node_id)
        &&& self.graph.outputs() == before.graph.outputs_off_node(node_id)
        &&& self.graph.connections() == before.graph.edges_off_node(node_id)
        &&& forall|a: int, b: int| 0 <= a < b < severed.len() ==> severed[a].0 != severed[b].0
        &&& forall|j: int|
            0 <= j < severed.len() ==> before.graph.connections().contains_pair(
                (#[trigger] severed[j]).0,
                severed[j].1,
            ) && before.graph.edge_touches(severed[j].0, node_id)
        &&& forall|i: InputId| #[trigger]
            before.graph.connections().contains_key(i) && before.graph.edge_touches(
                i,
                node_id,
            ) ==> exists|j: int| 0 <= j < severed.len() && (#[trigger] severed[j]).0 == i
        &&& self.selected == before.selected.remove(node_id)
        &&& self.positions == before.positions.remove(node_id)
        &&& self.port_positions.inputs() == before.port_positions.inputs().remove_keys(
            removed.input_ids().to_set(),
        )
        &&& self.port_positions.outputs() == before.port_positions.outputs().remove_keys(
            removed.output_ids().to_set(),
        )
        &&& self.drag_state == (if before.gesture_on_node(node_id) {
            None
        } else {
            before.drag_state
        })
        &&& self.node_finder == before.node_finder
        &&& self.pan_zoom == before.pan_zoom
        &&& self.allow_self_loops == before.allow_self_loops
    }

    /// Whether this state is what creating the node `id` makes of `before`:
    /// the graph has the node, which it did not have, beside what it had,
    /// unchanged; the node is where the node finder of `before` is, taken to
    /// logical space; it alone is selected; each of its ports has an entry in
    /// the registry of port positions, with no position known; and the rest
    /// is as it was.
    pub open spec fn is_creation_of(self, before: Self, id: NodeId) -> bool {
        &&& !before.graph.nodes().contains_key(id)
        &&& self.graph.nodes().dom() == before.graph.nodes().dom().insert(id)
        &&& self.graph.nodes()[id].id == id
        &&& forall|n: NodeId| #[trigger]
            before.graph.nodes().contains_key(n) ==> self.graph.nodes()[n]
                == before.graph.nodes()[n]
        &&& before.graph.inputs().submap_of(self.graph.inputs())
        &&& before.graph.outputs().submap_of(self.graph.outputs())
        &&& self.graph.connections() == before.graph.connections()
        &&& self.graph.spec_node_count() == before.graph.spec_node_count() + 1
        &&& self.positions == before.positions.insert(
            id,
            before.pan_zoom.spec_screen2logical(before.node_finder.pos),
        )
        &&& self.selected == Set::<NodeId>::empty().insert(id)
        &&& self.port_positions.inputs() == marked_unknown(
            before.port_positions.inputs(),
            self.graph.nodes()[id].input_ids(),
        )
        &&& self.port_positions.outputs() == marked_unknown(
            before.port_positions.outputs(),
            self.graph.nodes()[id].output_ids(),
        )
        &&& self.drag_state == before.drag_state
        &&& self.node_finder == before.node_finder
        &&& self.pan_zoom == before.pan_zoom
        &&& self.allow_self_loops == before.allow_self_loops
    }

    /// Whether this state is what starting a connection from the port `id`
    /// makes of `before`, where `retracted` is the connection that was taken
    /// away for it, if one was. From an input port that is connected, the
    /// connection is taken away and drawn anew from the output port that
    /// drove it; from any other port a connection is drawn from the port
    /// itself and the graph stays as it is. The loose end is where the port
    /// is drawn.
    pub open spec fn is_connection_start_of(
        self,
        before: Self,
        id: AnyParameterId,
        offset: Option<Vec2>,
        retracted: Option<(OutputId, InputId)>,
    ) -> bool {
        let pos = before.port_screen_pos(id, offset);
        &&& self.graph.same_nodes_and_ports(&before.graph)
        &&& match id {
            AnyParameterId::Input(input) if before.graph.connections().contains_key(input) => {
                let output = before.graph.connections()[input];
                &&& retracted == Some((output, input))
                &&& self.graph.connections() == before.graph.connections().remove(input)
                &&& self.same_but_graph(
                    EditorView {
                        drag_state: Some(
                            DragState::ConnectPort(
                                ConnectionInProgress::FromOutput {
                                    src: output,
                                    dest: ConnectTo::Pos(pos),
                                },
                            ),
                        ),
                        ..before
                    },
                )
            },
            _ => {
                &&& retracted is None
                &&& self == (EditorView {
                    drag_state: Some(
                        DragState::ConnectPort(ConnectionInProgress::spec_from_port(id, pos)),
                    ),
                    ..before
                })
            },
        }
    }

    /// Whether this state is what ending the connection gesture makes of
    /// `before`, where comparing the types of data of the two ports answered
    /// `types_equal` and `committed` is the connection that was made, if one
    /// was. No gesture is under way any more. With the loose end at a port
    /// and the types equal, the two ports are connected, in place of any
    /// connection that the input port had, and `committed` is that pair;
    /// otherwise none is made and the graph is as it was.
    pub open spec fn is_connection_end_given(
        self,
        before: Self,
        committed: Option<(OutputId, InputId)>,
        types_equal: bool,
    ) -> bool {
        &&& self.same_but_graph(EditorView { drag_state: None, ..before })
        &&& self.graph.same_nodes_and_ports(&before.graph)
        &&& match before.snapped_pair() {
            Some((output, input)) if types_equal => {
                &&& committed == Some((output, input))
                &&& self.graph.connections() == before.graph.connections().insert(input, output)
            },
            _ => committed is None && self.graph == before.graph,
        }
    }

    /// Whether this state is what ending the connection gesture makes of
    /// `before`, where `committed` is the connection that was made, if one
    /// was. No gesture is under way any more. A connection is made only
    /// between the two ports that the connection drawn joined, in place of
    /// any that the input port had; otherwise the graph is as it was. One is
    /// made if and only if the loose end was at a port and the comparison of
    /// the two types of data answered that they are equal; where the
    /// equality of `DataType` is what its specification says, that is if and
    /// only if the loose end was at a port of a matching type.
    pub open spec fn is_connection_end_of(
        self,
        before: Self,
        committed: Option<(OutputId, InputId)>,
    ) -> bool where DataType: PartialEq {
        &&& self.same_but_graph(EditorView { drag_state: None, ..before })
        &&& self.graph.same_nodes_and_ports(&before.graph)
        &&& match committed {
            Some((output, input)) => {
                &&& before.snapped_pair() == Some((output, input))
                &&& self.graph.connections() == before.graph.connections().insert(input, output)
            },
            None => self.graph == before.graph,
        }
        &&& before.commit_answers(committed is Some)
        &&& self.is_connection_end_given(before, committed, committed is Some)
        &&& DataType::obeys_eq_spec() ==> (committed is Some <==> before.can_commit())
    }

    /// Whether this state is what the pointer coming over the port `id`
    /// makes of `before`, where `snapped` says whether the loose end of the
    /// connection drawn settled at the port. If it did, a connection was
    /// drawn that started from a port of the other direction; if not, nothing
    /// changed. Whether it did is what `snap_answers` says; where the
    /// equality of `DataType` is what its specification says, it did if and
    /// only if it might.
    pub open spec fn is_snap_of(self, before: Self, id: AnyParameterId, snapped: bool) -> bool where
        DataType: PartialEq,
     {
        &&& self == (match before.drag_state {
            Some(DragState::ConnectPort(c)) if snapped => EditorView {
                drag_state: Some(DragState::ConnectPort(c.spec_to_id(id))),
                ..before
            },
            _ => before,
        })
        &&& snapped ==> before.faces(id)
        &&& before.snap_answers(id, snapped)
        &&& DataType::obeys_eq_spec() ==> snapped == before.can_snap(id)
    }

    /// Whether this state is what the pointer leaving the port `id` makes of
    /// `before`, where `unsnapped` says whether the loose end of the
    /// connection drawn went to where the port is drawn. If it did, a
    /// connection was drawn that started from a port of the other direction;
    /// if not, nothing changed. Whether it did is what `snap_answers` says;
    /// where the equality of `DataType` is what its specification says, it
    /// did if and only if the loose end might have settled at the port.
    pub open spec fn is_unsnap_of(
        self,
        before: Self,
        id: AnyParameterId,
        offset: Option<Vec2>,
        unsnapped: bool,
    ) -> bool where DataType: PartialEq {
        &&& self == (match before.drag_state {
            Some(DragState::ConnectPort(c)) if unsnapped => EditorView {
                drag_state: Some(
                    DragState::ConnectPort(c.spec_to_pos(before.port_screen_pos(id, offset))),
                ),
                ..before
            },
            _ => before,
        })
        &&& unsnapped ==> before.faces(id)
        &&& before.snap_answers(id, unsnapped)
        &&& DataType::obeys_eq_spec() ==> unsnapped == before.can_snap(id)
    }

    /// The selection after a click on the node: with the shift key held the
    /// node joins the selection, or leaves it if it was in it; without, the
    /// node alone is selected.
    pub open spec fn clicked(self, id: NodeId, shift_held: bool) -> Set<NodeId> {
        if shift_held {
            if self.selected.contains(id) {
                self.selected.remove(id)
            } else {
                self.selected.insert(id)
            }
        } else {
            Set::<NodeId>::empty().insert(id)
        }
    }

    /// Whether the state hangs together: the graph is in order, every node
    /// has a position and nothing else has one, and a connection that is
    /// drawn speaks of ports that the graph has.
    pub open spec fn consistent(self) -> bool {
        &&& self.graph.wf()
        &&& self.positions.dom() == self.graph.nodes().dom()
        &&& self.gesture_in_graph()
    }
}

impl<NodeData, DataType, ValueType> GraphEditorState<NodeData, DataType, ValueType> {
    /// Whether the state hangs together.
    pub closed spec fn wf(&self) -> bool {
        &&& self@.consistent()
        &&& point_entries(self.node_positions).dom() == self.graph.node_keys()
        &&& forall|k: u64| #[trigger] self.selected_nodes@.contains(k) ==> is_live_key(k)
    }

    /// A state that hangs together is consistent.
    pub proof fn lemma_wf_consistent(&self)
        requires
            self.wf(),
        ensures
            self@.consistent(),
    {
    }

    /// An editor with an empty graph: nothing is selected, no gesture is
    /// under way, the view is neither moved nor scaled, the node finder is
    /// hidden, and connections within one node are refused.
    pub fn new() -> (r: Self)
        ensures
            r.wf(),
            r@.is_opening(),
            r@.graph.nodes() == Map::<NodeId, NodeView<NodeData>>::empty(),
            r@.graph.inputs() == Map::<InputId, InputParam<DataType, ValueType>>::empty(),
            r@.graph.outputs() == Map::<OutputId, OutputParam<DataType>>::empty(),
            r@.graph.connections() == Map::<InputId, OutputId>::empty(),
            r@.graph.spec_node_count() == 0,
            r@.graph.spec_input_count() == 0,
            r@.graph.spec_output_count() == 0,
            r@.positions == Map::<NodeId, Vec2>::empty(),
    {
        let r = GraphEditorState {
            graph: Graph::new(),
            selected_nodes: HashSet::new(),
            node_positions: point_map_new(),
            drag_state: None,
            port_positions: PortsData::new(),
            node_finder: NodeFinder::default(),
            pan_zoom: PanZoom::identity(),
            allow_self_loops: false,
        };
        proof {
            r.graph.lemma_node_keys();
            assert(r@.selected =~= Set::<NodeId>::empty());
            assert(r@.positions =~= Map::<NodeId, Vec2>::empty());
            assert(r@.positions.dom() =~= r@.graph.nodes().dom());
            assert(r@.positions =~= Map::new(
                |id: NodeId| r@.graph.nodes().contains_key(id),
                |id: NodeId| vec2_zero(),
            ));
            assert(r.graph.node_keys() =~= Set::<u64>::empty()) by {
                assert forall|k: u64| !r.graph.node_keys().contains(k) by {
                    if r.graph.node_keys().contains(k) {
                        assert(is_live_key(k));
                        let id = NodeId { raw: k };
                        assert(r.graph.nodes().contains_key(id));
                    }
                }
            }
        }
        r
    }

    /// An editor for the graph, with every node at the origin: nothing is
    /// selected, no gesture is under way, the view is neither moved nor
    /// scaled, the node finder is hidden, no port position is known, and
    /// connections within one node are refused.
    pub fn from_graph(graph: Graph<NodeData, DataType, ValueType>) -> (r: Self)
        requires
            graph.wf(),
        ensures
            r.wf(),
            r@.graph == graph,
            r@.is_opening(),
    {
        let ids = graph.iter_nodes();
        let mut node_positions = point_map_new();
        let origin = vec2_from_ints(0, 0);
        let mut i: usize = 0;
        proof {
            graph.lemma_node_keys();
        }
        while i < ids.len()
            invariant
                0 <= i <= ids@.len(),
                origin == vec2_zero(),
                ids@.no_duplicates(),
                keys_apart(graph.node_keys()),
                forall|id: NodeId| ids@.contains(id) <==> graph.nodes().contains_key(id),
                forall|id: NodeId| #[trigger]
                    graph.nodes().contains_key(id) <==> graph.node_keys().contains(id.raw),
                forall|k: u64| #[trigger]
                    point_entries(node_positions).contains_key(k) <==> exists|j: int|
                        0 <= j < i && (#[trigger] ids@[j]).raw == k,
                forall|k: u64| #[trigger]
                    point_entries(node_positions).contains_key(k) ==> point_entries(
                        node_positions,
                    )[k] == vec2_zero(),
            decreases ids@.len() - i,
        {
            let id = ids[i];
            let ghost before = point_entries(node_positions);
            proof {
                assert(ids@.contains(ids@[i as int]));
                assert(graph.node_keys().contains(id.raw));
                assert forall|other: u64| #[trigger]
                    before.dom().contains(other) && slot_of(other)
                        == slot_of(id.raw) implies other == id.raw by {
                    let j = choose|j: int| 0 <= j < i && (#[trigger] ids@[j]).raw == other;
                    assert(ids@.contains(ids@[j]));
                    assert(graph.node_keys().contains(other));
                }
            }
            let _ = point_map_insert(&mut node_positions, id.key(), origin);
            proof {
                assert forall|k: u64| #[trigger]
                    point_entries(node_positions).contains_key(k) <==> exists|j: int|
                        0 <= j < i + 1 && (#[trigger] ids@[j]).raw == k by {
                    if point_entries(node_positions).contains_key(k) {
                        if k == id.raw {
                            assert(ids@[i as int].raw == k);
                        } else {
                            let j = choose|j: int| 0 <= j < i && (#[trigger] ids@[j]).raw == k;
                            assert(0 <= j < i + 1);
                        }
                    }
                    if exists|j: int| 0 <= j < i + 1 && (#[trigger] ids@[j]).raw == k {
                        let j = choose|j: int| 0 <= j < i + 1 && (#[trigger] ids@[j]).raw == k;
                        if j < i {
                            assert(before.contains_key(k));
                        }
                    }
                }
            }
            i += 1;
        }
        let r = GraphEditorState {
            graph,
            selected_nodes: HashSet::new(),
            node_positions,
            drag_state: None,
            port_positions: PortsData::new(),
            node_finder: NodeFinder::default(),
            pan_zoom: PanZoom::identity(),
            allow_self_loops: false,
        };
        proof {
            assert forall|k: u64|
                point_entries(r.node_positions).dom().contains(k) <==> r.graph.node_keys().contains(
                    k,
                ) by {
                if point_entries(r.node_positions).contains_key(k) {
                    let j = choose|j: int| 0 <= j < ids@.len() && (#[trigger] ids@[j]).raw == k;
                    assert(ids@.contains(ids@[j]));
                }
                if r.graph.node_keys().contains(k) {
                    let id = NodeId { raw: k };
                    assert(graph.nodes().contains_key(id));
                    assert(ids@.contains(id));
                    let j = choose|j: int| 0 <= j < ids@.len() && ids@[j] == id;
                    assert(ids@[j].raw == k);
                }
            }
            assert(point_entries(r.node_positions).dom() =~= r.graph.node_keys());
            assert(r@.selected =~= Set::<NodeId>::empty());
            assert(r@.positions =~= Map::new(
                |id: NodeId| graph.nodes().contains_key(id),
                |id: NodeId| vec2_zero(),
            ));
            assert(r@.positions.dom() =~= r@.graph.nodes().dom());
        }
        r
    }

    /// Gives the graph away, and with it the editor.
    pub fn into_graph(self) -> (r: Graph<NodeData, DataType, ValueType>)
        requires
            self.wf(),
        ensures
            r == self@.graph,
            r.wf(),
    {
        self.graph
    }

    /// The graph.
    pub fn graph(&self) -> (r: &Graph<NodeData, DataType, ValueType>)
        ensures
            *r == self@.graph,
    {
        &self.graph
    }

    /// The pan and zoom of the viewport.
    pub fn pan_zoom(&self) -> (r: PanZoom)
        ensures
            r == self@.pan_zoom,
    {
        self.pan_zoom
    }

    /// Sets the pan and zoom of the viewport.
    pub fn set_pan_zoom(&mut self, pan_zoom: PanZoom)
        requires
            old(self).wf(),
        ensures
            final(self).wf(),
            final(self)@ == (EditorView { pan_zoom, ..old(self)@ }),
    {
        self.pan_zoom = pan_zoom;
        proof {
            assert(self@.selected =~= old(self)@.selected);
            assert(self@.positions =~= old(self)@.positions);
        }
    }

    /// Zooms by the factor `zoom` around the logical point `logical_pos`,
    /// which stays where it is on the screen.
    pub fn zoom_to_pos(&mut self, zoom: Vec2, logical_pos: Vec2)
        requires
            old(self).wf(),
        ensures
            final(self).wf(),
            final(self)@ == (EditorView {
                pan_zoom: old(self)@.pan_zoom.spec_compose(
                    PanZoom::spec_from_zoom_to_pos(zoom, logical_pos),
                ),
                ..old(self)@
            }),
    {
        self.pan_zoom.zoom_to_pos(zoom, logical_pos);
        proof {
            assert(self@.selected =~= old(self)@.selected);
            assert(self@.positions =~= old(self)@.positions);
        }
    }

    /// Takes one notch of the wheel at the screen point `pos`: the scale
    /// goes up or down by a tenth, but not below a tenth nor above two, and
    /// what is drawn at `pos` stays there.
    pub fn wheel(&mut self, zoom_in: bool, pos: Vec2)
        requires
            old(self).wf(),
        ensures
            final(self).wf(),
            final(self)@ == (EditorView {
                pan_zoom: old(self)@.pan_zoom.spec_wheel(zoom_in, pos),
                ..old(self)@
            }),
    {
        self.pan_zoom.wheel(zoom_in, pos);
        proof {
            assert(self@.selected =~= old(self)@.selected);
            assert(self@.positions =~= old(self)@.positions);
        }
    }

    /// The node finder.
    pub fn node_finder(&self) -> (r: NodeFinder)
        ensures
            r == self@.node_finder,
    {
        self.node_finder
    }

    /// Hides the node finder.
    pub fn close_node_finder(&mut self)
        requires
            old(self).wf(),
        ensures
            final(self).wf(),
            final(self)@ == (EditorView {
                node_finder: NodeFinder { is_showing: false, ..old(self)@.node_finder },
                ..old(self)@
            }),
    {
        self.node_finder.is_showing = false;
        proof {
            assert(self@.selected =~= old(self)@.selected);
            assert(self@.positions =~= old(self)@.positions);
        }
    }

    /// Whether a connection may join two ports of one node.
    pub fn allow_self_loops(&self) -> (r: bool)
        ensures
            r == self@.allow_self_loops,
    {
        self.allow_self_loops
    }

    /// Says whether a connection may join two ports of one node.
    pub fn set_allow_self_loops(&mut self, allow: bool)
        requires
            old(self).wf(),
        ensures
            final(self).wf(),
            final(self)@ == (EditorView { allow_self_loops: allow, ..old(self)@ }),
    {
        self.allow_self_loops = allow;
        proof {
            assert(self@.selected =~= old(self)@.selected);
            assert(self@.positions =~= old(self)@.positions);
        }
    }

    /// What the registry of port positions holds for the port: nothing, no
    /// position known, or the position on the screen.
    pub fn port_position(&self, id: AnyParameterId) -> (r: Option<Option<Vec2>>)
        ensures
            r == self@.port_positions.value_of(id),
    {
        match self.port_positions.get(id) {
            Some(p) => Some(*p),
            None => None,
        }
    }

    /// The view says where the port is on the screen, or that it is not
    /// known where.
    pub fn set_port_position(&mut self, id: AnyParameterId, pos: Option<Vec2>)
        requires
            old(self).wf(),
        ensures
            final(self).wf(),
            final(self)@.same_but_ports(old(self)@),
            final(self)@.port_positions.value_of(id) == Some(pos),
            forall|other: AnyParameterId|
                other != id ==> #[trigger] final(self)@.port_positions.value_of(other) == old(
                    self,
                )@.port_positions.value_of(other),
    {
        let _ = self.port_positions.insert(id, pos);
        proof {
            assert(self@.selected =~= old(self)@.selected);
            assert(self@.positions =~= old(self)@.positions);
        }
    }

    /// Puts the node, which the graph has, at the logical point.
    pub fn set_node_position(&mut self, id: NodeId, pos: Vec2)
        requires
            old(self).wf(),
            old(self)@.graph.nodes().contains_key(id),
        ensures
            final(self).wf(),
            final(self)@ == (EditorView {
                positions: old(self)@.positions.insert(id, pos),
                ..old(self)@
            }),
    {
        proof {
            self.graph.lemma_node_keys();
            assert forall|other: u64| #[trigger]
                point_entries(self.node_positions).dom().contains(other) && slot_of(other)
                    == slot_of(id.raw) implies other == id.raw by {
                assert(self.graph.node_keys().contains(other));
                assert(self.graph.node_keys().contains(id.raw));
            }
        }
        let _ = point_map_insert(&mut self.node_positions, id.key(), pos);
        proof {
            assert(self@.selected =~= old(self)@.selected);
            assert(self@.positions =~= old(self)@.positions.insert(id, pos));
            assert(point_entries(self.node_positions).dom() =~= self.graph.node_keys());
            assert(self@.positions.dom() =~= self@.graph.nodes().dom());
        }
    }

    /// The gesture that is under way, if one is.
    pub fn drag_state(&self) -> (r: &Option<DragState>)
        ensures
            *r == self@.drag_state,
    {
        &self.drag_state
    }

    /// Tells whether the node is selected.
    pub fn is_selected(&self, id: NodeId) -> (r: bool)
        ensures
            r == self@.selected.contains(id),
    {
        let k = id.key();
        self.selected_nodes.contains(&k)
    }

    /// Where the node is, in logical space, if the editor has the node.
    pub fn node_position(&self, id: NodeId) -> (r: Option<Vec2>)
        ensures
            r == (if self@.positions.contains_key(id) {
                Some(self@.positions[id])
            } else {
                None
            }),
    {
        point_map_get(&self.node_positions, id.key())
    }

    /// Selects on a click: with the shift key held the node joins the
    /// selection, or leaves it if it was in it; without, the node alone is
    /// selected. Any handle is taken, also one of a node that the graph has
    /// not or has no longer.
    pub fn selection(&mut self, id: NodeId, is_shift_key_pressed: bool)
        requires
            old(self).wf(),
        ensures
            final(self).wf(),
            final(self)@ == (EditorView {
                selected: old(self)@.clicked(id, is_shift_key_pressed),
                ..old(self)@
            }),
    {
        if is_shift_key_pressed {
            if self.is_selected(id) {
                self.unselect(id);
            } else {
                self.inclusive_select(id);
            }
        } else {
            self.exclusive_select(id);
        }
    }

    /// Selects the node alone.
    pub fn exclusive_select(&mut self, node_id: NodeId)
        requires
            old(self).wf(),
        ensures
            final(self).wf(),
            final(self)@ == (EditorView {
                selected: Set::<NodeId>::empty().insert(node_id),
                ..old(self)@
            }),
    {
        self.selected_nodes.clear();
        let _ = self.selected_nodes.insert(node_id.key());
        proof {
            self.graph.lemma_node_keys();
            assert(self@.selected =~= Set::<NodeId>::empty().insert(node_id));
            assert(self@.positions =~= old(self)@.positions);
        }
    }

    /// Adds the node to the selection.
    pub fn inclusive_select(&mut self, node_id: NodeId)
        requires
            old(self).wf(),
        ensures
            final(self).wf(),
            final(self)@ == (EditorView {
                selected: old(self)@.selected.insert(node_id),
                ..old(self)@
            }),
    {
        let _ = self.selected_nodes.insert(node_id.key());
        proof {
            self.graph.lemma_node_keys();
            assert(self@.selected =~= old(self)@.selected.insert(node_id));
            assert(self@.positions =~= old(self)@.positions);
        }
    }

    /// Selects nothing.
    pub fn clear_selection(&mut self)
        requires
            old(self).wf(),
        ensures
            final(self).wf(),
            final(self)@ == (EditorView { selected: Set::<NodeId>::empty(), ..old(self)@ }),
    {
        self.selected_nodes.clear();
        proof {
            assert(self@.selected =~= Set::<NodeId>::empty());
            assert(self@.positions =~= old(self)@.positions);
        }
    }

    /// Takes the node out of the selection.
    pub fn unselect(&mut self, node_id: NodeId)
        requires
            old(self).wf(),
        ensures
            final(self).wf(),
            final(self)@ == (EditorView {
                selected: old(self)@.selected.remove(node_id),
                ..old(self)@
            }),
    {
        let k = node_id.key();
        let _ = self.selected_nodes.remove(&k);
        proof {
            assert(self@.selected =~= old(self)@.selected.remove(node_id));
            assert(self@.positions =~= old(self)@.positions);
        }
    }

    /// Shows the node finder at the point.
    pub fn open_node_finder(&mut self, pos: Vec2)
        requires
            old(self).wf(),
        ensures
            final(self).wf(),
            final(self)@ == (EditorView {
                node_finder: NodeFinder { pos, is_showing: true },
                ..old(self)@
            }),
    {
        self.node_finder.is_showing = true;
        self.node_finder.pos = pos;
        proof {
            assert(self@.selected =~= old(self)@.selected);
            assert(self@.positions =~= old(self)@.positions);
        }
    }

    /// Starts to move the selected nodes by the node `id`, where that node
    /// is selected; `shift` is where in the node the pointer took hold. On a
    /// node that is not selected nothing starts.
    pub fn start_moving_node(&mut self, id: NodeId, shift: Vec2)
        requires
            old(self).wf(),
        ensures
            final(self).wf(),
            final(self)@ == (if old(self)@.selected.contains(id) {
                EditorView { drag_state: Some(DragState::MoveNode { id, shift }), ..old(self)@ }
            } else {
                old(self)@
            }),
    {
        if self.is_selected(id) {
            self.drag_state = Some(DragState::MoveNode { id, shift });
            proof {
                assert(self@.selected =~= old(self)@.selected);
                assert(self@.positions =~= old(self)@.positions);
            }
        }
    }

    /// Ends the gesture that is under way, whatever it is.
    pub fn end_moving_node(&mut self)
        requires
            old(self).wf(),
        ensures
            final(self).wf(),
            final(self)@ == (EditorView { drag_state: None, ..old(self)@ }),
    {
        self.drag_state = None;
        proof {
            assert(self@.selected =~= old(self)@.selected);
            assert(self@.positions =~= old(self)@.positions);
        }
    }

    /// Starts a box to select nodes with, both corners at the point.
    pub fn start_select_box(&mut self, start: Vec2)
        requires
            old(self).wf(),
        ensures
            final(self).wf(),
            final(self)@ == (EditorView {
                drag_state: Some(DragState::SelectBox { start, end: start }),
                ..old(self)@
            }),
    {
        self.drag_state = Some(DragState::SelectBox { start, end: start });
        proof {
            assert(self@.selected =~= old(self)@.selected);
            assert(self@.positions =~= old(self)@.positions);
        }
    }

    /// Moves the loose corner of the box to the point, while a box is drawn.
    pub fn scale_select_box(&mut self, end: Vec2)
        requires
            old(self).wf(),
        ensures
            final(self).wf(),
            final(self)@ == (match old(self)@.drag_state {
                Some(DragState::SelectBox { start, end: _ }) => EditorView {
                    drag_state: Some(DragState::SelectBox { start, end }),
                    ..old(self)@
                },
                _ => old(self)@,
            }),
    {
        match self.drag_state {
            Some(DragState::SelectBox { start, end: _ }) => {
                self.drag_state = Some(DragState::SelectBox { start, end });
                proof {
                    assert(self@.selected =~= old(self)@.selected);
                    assert(self@.positions =~= old(self)@.positions);
                }
            },
            _ => {},
        }
    }

    /// The two corners of the box, while a box is drawn.
    pub fn select_box(&self) -> (r: Option<(Vec2, Vec2)>)
        ensures
            r == (match self@.drag_state {
                Some(DragState::SelectBox { start, end }) => Some((start, end)),
                _ => None,
            }),
    {
        match self.drag_state {
            Some(DragState::SelectBox { start, end }) => Some((start, end)),
            _ => None,
        }
    }

    /// Starts to move the view; the pointer is at the point.
    pub fn start_pan(&mut self, pos: Vec2)
        requires
            old(self).wf(),
        ensures
            final(self).wf(),
            final(self)@ == (EditorView {
                drag_state: Some(DragState::Pan { prev_pos: pos }),
                node_finder: NodeFinder { is_showing: false, ..old(self)@.node_finder },
                ..old(self)@
            }),
    {
        self.node_finder.is_showing = false;
        self.drag_state = Some(DragState::Pan { prev_pos: pos });
        proof {
            assert(self@.selected =~= old(self)@.selected);
            assert(self@.positions =~= old(self)@.positions);
        }
    }

    /// Moves the view by as much as the pointer went since the last call,
    /// while the view is moved; the pointer is at the point now.
    pub fn pan(&mut self, pos: Vec2)
        requires
            old(self).wf(),
        ensures
            final(self).wf(),
            final(self)@ == (match old(self)@.drag_state {
                Some(DragState::Pan { prev_pos }) => old(self)@.panned(pos, prev_pos),
                _ => old(self)@,
            }),
    {
        match self.drag_state {
            Some(DragState::Pan { prev_pos }) => {
                let delta = vec2_sub(pos, prev_pos);
                self.pan_zoom.pan_screen(delta);
                self.drag_state = Some(DragState::Pan { prev_pos: pos });
                proof {
                    assert(self@.selected =~= old(self)@.selected);
                    assert(self@.positions =~= old(self)@.positions);
                }
            },
            _ => {},
        }
    }

    /// Moves the selected nodes while they are being moved: the node that
    /// the pointer holds goes to the pointer, and every selected node moves
    /// by as much as that node does. Returns by how much, in logical space.
    /// The node that the pointer holds is a node of the graph: to move by a
    /// handle whose node is gone is the caller's fault.
    pub fn move_node(&mut self, pos: Vec2) -> (r: Option<Vec2>)
        requires
            old(self).wf(),
            old(self)@.move_anchor_placed(),
        ensures
            final(self).wf(),
            match old(self)@.drag_state {
                Some(DragState::MoveNode { id, shift }) => {
                    let delta = old(self)@.move_delta(pos, id, shift);
                    r == Some(delta) && final(self)@ == (EditorView {
                        positions: old(self)@.positions_moved(delta),
                        ..old(self)@
                    })
                },
                _ => r is None && final(self)@ == old(self)@,
            },
    {
        match self.drag_state {
            Some(DragState::MoveNode { id, shift }) => {
                let target = vec2_sub(pos, shift);
                proof {
                    self.graph.lemma_node_keys();
                    assert(self@.positions.contains_key(id));
                }
                let selected_pos = point_map_get(&self.node_positions, id.key()).unwrap();
                let drag_delta = vec2_sub(self.pan_zoom.screen2logical(target), selected_pos);
                shift_selected(&mut self.node_positions, &self.selected_nodes, drag_delta);
                proof {
                    assert(self@.selected =~= old(self)@.selected);
                    assert(self@.positions =~= old(self)@.positions_moved(drag_delta));
                    assert(self@.positions.dom() =~= old(self)@.positions.dom());
                }
                Some(drag_delta)
            },
            _ => None,
        }
    }

    /// Ends the box: every node inside it joins the selection.
    pub fn end_select_box(&mut self)
        requires
            old(self).wf(),
        ensures
            final(self).wf(),
            final(self)@ == (match old(self)@.drag_state {
                Some(DragState::SelectBox { start, end }) => EditorView {
                    selected: old(self)@.selected.union(old(self)@.nodes_in_box(start, end)),
                    drag_state: None,
                    ..old(self)@
                },
                _ => EditorView { drag_state: None, ..old(self)@ },
            }),
    {
        let taken = self.drag_state;
        self.drag_state = None;
        match taken {
            Some(DragState::SelectBox { start, end }) => {
                let min = self.pan_zoom.screen2logical(vec2_lower(start, end));
                let max = self.pan_zoom.screen2logical(vec2_upper(start, end));
                select_inside(&self.node_positions, &mut self.selected_nodes, min, max);
                proof {
                    self.graph.lemma_node_keys();
                    assert(self@.positions =~= old(self)@.positions);
                    assert(self@.selected =~= old(self)@.selected.union(
                        old(self)@.nodes_in_box(start, end),
                    ));
                }
            },
            _ => {
                proof {
                    assert(self@.selected =~= old(self)@.selected);
                    assert(self@.positions =~= old(self)@.positions);
                }
            },
        }
    }

    /// Where the port is drawn in the viewport, whose corner is at `offset`
    /// on the screen.
    pub fn port_pos(&self, id: AnyParameterId, offset: Option<Vec2>) -> (r: Vec2)
        ensures
            r == self@.port_screen_pos(id, offset),
    {
        match (self.port_positions.get(id), offset) {
            (Some(Some(p)), Some(o)) => vec2_sub(*p, o),
            _ => vec2_from_ints(0, 0),
        }
    }

    /// Starts to draw a connection from the port. From an input port that is
    /// connected, the connection is taken away and drawn anew from the
    /// output port that drove it; the pair is returned. `offset` is where
    /// the corner of the viewport is on the screen, if that is known.
    pub fn start_connection(&mut self, id: AnyParameterId, offset: Option<Vec2>) -> (r: Option<
        (OutputId, InputId),
    >)
        requires
            old(self).wf(),
            old(self)@.has_port(id),
        ensures
            final(self).wf(),
            final(self)@.is_connection_start_of(old(self)@, id, offset, r),
    {
        let pos = self.port_pos(id, offset);
        proof {
            self.graph.lemma_wf_consistent();
        }
        let r = match id {
            AnyParameterId::Input(input) => {
                match self.graph.connection(input) {
                    Some(output) => {
                        let _ = self.graph.remove_connection(input);
                        self.drag_state = Some(
                            DragState::ConnectPort(
                                ConnectionInProgress::FromOutput {
                                    src: output,
                                    dest: ConnectTo::Pos(pos),
                                },
                            ),
                        );
                        Some((output, input))
                    },
                    None => {
                        self.drag_state = Some(
                            DragState::ConnectPort(ConnectionInProgress::from_port(id, pos)),
                        );
                        None
                    },
                }
            },
            AnyParameterId::Output(_) => {
                self.drag_state = Some(
                    DragState::ConnectPort(ConnectionInProgress::from_port(id, pos)),
                );
                None
            },
        };
        proof {
            self.graph.lemma_same_node_keys(&old(self).graph);
            assert(self@.selected =~= old(self)@.selected);
            assert(self@.positions =~= old(self)@.positions);
        }
        r
    }

    /// Moves the loose end of the connection to the point, while a
    /// connection is drawn and its loose end is not at a port.
    pub fn move_connection(&mut self, pos: Vec2)
        requires
            old(self).wf(),
        ensures
            final(self).wf(),
            final(self)@ == (match old(self)@.drag_state {
                Some(DragState::ConnectPort(c)) if c.is_loose() => EditorView {
                    drag_state: Some(DragState::ConnectPort(c.spec_to_pos(pos))),
                    ..old(self)@
                },
                _ => old(self)@,
            }),
    {
        match self.drag_state {
            Some(DragState::ConnectPort(c)) => {
                let mut c = c;
                if c.pair().is_none() {
                    c.to_pos(pos);
                    self.drag_state = Some(DragState::ConnectPort(c));
                    proof {
                        assert(self@.selected =~= old(self)@.selected);
                        assert(self@.positions =~= old(self)@.positions);
                    }
                }
            },
            _ => {},
        }
    }

    /// Tells whether the loose end of the connection that is drawn may
    /// settle at the port.
    fn is_able_to_connect(&self, id: AnyParameterId) -> (r: bool) where DataType: PartialEq
        requires
            self.wf(),
            self@.has_port(id),
        ensures
            r ==> self@.faces(id),
            self@.snap_answers(id, r),
            DataType::obeys_eq_spec() ==> r == self@.can_snap(id),
    {
        match self.drag_state {
            Some(DragState::ConnectPort(c)) => match c.pair_with(id) {
                Some((output, input)) => {
                    assert(self@.gesture_in_graph());
                    (self.allow_self_loops || self.graph.output(output).node != self.graph.input(
                        input,
                    ).node) && self.graph.param_typ_eq(output, input)
                },
                None => false,
            },
            _ => false,
        }
    }

    /// The pointer came over the port: the loose end of the connection that
    /// is drawn settles at it, where it may. Tells whether it did.
    pub fn snap_connection(&mut self, id: AnyParameterId) -> (r: bool) where DataType: PartialEq
        requires
            old(self).wf(),
            old(self)@.has_port(id),
        ensures
            final(self).wf(),
            final(self)@.is_snap_of(old(self)@, id, r),
    {
        if self.is_able_to_connect(id) {
            match self.drag_state {
                Some(DragState::ConnectPort(c)) => {
                    let mut c = c;
                    c.to_id(id);
                    self.drag_state = Some(DragState::ConnectPort(c));
                    proof {
                        assert(self@.selected =~= old(self)@.selected);
                        assert(self@.positions =~= old(self)@.positions);
                    }
                },
                _ => {},
            }
            true
        } else {
            false
        }
    }

    /// The pointer left the port: the loose end of the connection that is
    /// drawn, where it might have settled at the port, goes to where the
    /// port is drawn. Tells whether it did. `offset` is where the corner of
    /// the viewport is on the screen, if that is known.
    pub fn unsnap_connection(&mut self, id: AnyParameterId, offset: Option<Vec2>) -> (r: bool) where
        DataType: PartialEq,

        requires
            old(self).wf(),
            old(self)@.has_port(id),
        ensures
            final(self).wf(),
            final(self)@.is_unsnap_of(old(self)@, id, offset, r),
    {
        if self.is_able_to_connect(id) {
            let port_pos = self.port_pos(id, offset);
            match self.drag_state {
                Some(DragState::ConnectPort(c)) => {
                    let mut c = c;
                    c.to_pos(port_pos);
                    self.drag_state = Some(DragState::ConnectPort(c));
                    proof {
                        assert(self@.selected =~= old(self)@.selected);
                        assert(self@.positions =~= old(self)@.positions);
                    }
                },
                _ => {},
            }
            true
        } else {
            false
        }
    }

    /// Ends the connection gesture. Where the loose end is at a port that
    /// takes or gives the same type of data as the port that the connection
    /// started from, the two are connected, in place of any connection that
    /// the input port had, and the pair is returned. The gesture that is
    /// under way ends, whatever it is.
    pub fn end_connection(&mut self) -> (r: Option<(OutputId, InputId)>) where DataType: PartialEq
        requires
            old(self).wf(),
        ensures
            final(self).wf(),
            final(self)@.is_connection_end_of(old(self)@, r),
    {
        let types_equal = match self.drag_state {
            Some(DragState::ConnectPort(c)) => match c.pair() {
                Some((output, input)) => {
                    assert(self@.gesture_in_graph());
                    self.graph.param_typ_eq(*output, *input)
                },
                None => false,
            },
            _ => false,
        };
        self.end_connection_with(types_equal)
    }

    /// Ends the connection gesture, given what comparing the types of data
    /// of the two ports answered. Where the loose end is at a port and the
    /// answer is that the types are equal, the two ports are connected, in
    /// place of any connection that the input port had, and the pair is
    /// returned; otherwise no connection is made. The gesture that is under
    /// way ends, whatever it is.
    pub fn end_connection_with(&mut self, types_equal: bool) -> (r: Option<(OutputId, InputId)>)
        requires
            old(self).wf(),
        ensures
            final(self).wf(),
            final(self)@.is_connection_end_given(old(self)@, r, types_equal),
    {
        let taken = self.drag_state;
        self.drag_state = None;
        proof {
            assert(old(self)@.gesture_in_graph());
            assert(self@.selected =~= old(self)@.selected);
            assert(self@.positions =~= old(self)@.positions);
        }
        match taken {
            Some(DragState::ConnectPort(c)) => match c.pair() {
                Some((output, input)) => {
                    let output = *output;
                    let input = *input;
                    if types_equal {
                        self.graph.add_connection(output, input);
                        proof {
                            self.graph.lemma_same_node_keys(&old(self).graph);
                            assert(self@.selected =~= old(self)@.selected);
                            assert(self@.positions =~= old(self)@.positions);
                        }
                        Some((output, input))
                    } else {
                        None
                    }
                },
                None => None,
            },
            _ => None,
        }
    }

    /// The connection that is drawn, as the view draws it: the point at its
    /// output end, the point at its input end, both in the viewport, and the
    /// type of data of the port that it started from. `offset` is where the
    /// corner of the viewport is on the screen; while that is not known,
    /// nothing is drawn.
    pub fn connection_in_progress(&self, offset: Option<Vec2>) -> (r: Option<
        (Vec2, Vec2, DataType),
    >) where DataType: Clone
        requires
            self.wf(),
        ensures
            match (self@.drag_state, offset) {
                (
                    Some(DragState::ConnectPort(ConnectionInProgress::FromInput { src, dest })),
                    Some(_),
                ) => match r {
                    Some((from, to, typ)) => {
                        &&& from == self@.output_end_pos(dest, offset)
                        &&& to == self@.port_screen_pos(AnyParameterId::Input(src), offset)
                        &&& cloned(self@.graph.inputs()[src].typ, typ)
                    },
                    None => false,
                },
                (
                    Some(DragState::ConnectPort(ConnectionInProgress::FromOutput { src, dest })),
                    Some(_),
                ) => match r {
                    Some((from, to, typ)) => {
                        &&& from == self@.port_screen_pos(AnyParameterId::Output(src), offset)
                        &&& to == self@.input_end_pos(dest, offset)
                        &&& cloned(self@.graph.outputs()[src].typ, typ)
                    },
                    None => false,
                },
                _ => r is None,
            },
    {
        if offset.is_none() {
            return None;
        }
        proof {
            assert(self@.gesture_in_graph());
        }
        match self.drag_state {
            Some(DragState::ConnectPort(ConnectionInProgress::FromInput { src, dest })) => {
                let src_pos = self.port_pos(AnyParameterId::Input(src), offset);
                let dest_pos = match dest {
                    ConnectTo::Id(id) => self.port_pos(AnyParameterId::Output(id), offset),
                    ConnectTo::Pos(p) => p,
                };
                Some((dest_pos, src_pos, self.graph.input(src).typ.clone()))
            },
            Some(DragState::ConnectPort(ConnectionInProgress::FromOutput { src, dest })) => {
                let src_pos = self.port_pos(AnyParameterId::Output(src), offset);
                let dest_pos = match dest {
                    ConnectTo::Id(id) => self.port_pos(AnyParameterId::Input(id), offset),
                    ConnectTo::Pos(p) => p,
                };
                Some((src_pos, dest_pos, self.graph.output(src).typ.clone()))
            },
            _ => None,
        }
    }

    /// Creates a node of the kind `template`, where the node finder is,
    /// and selects it alone. The template says how the node is labelled,
    /// what it carries and which ports it has; for each of its ports the
    /// registry of port positions gets an entry, with no position known yet.
    pub fn create_node<T>(&mut self, template: T, user_state: &T::UserState) -> (r: NodeId) where
        T: NodeTemplateTrait<NodeData = NodeData, DataType = DataType, ValueType = ValueType>,

        requires
            old(self).wf(),
            old(self)@.graph.spec_node_count() < ARENA_LIMIT,
        ensures
            final(self).wf(),
            final(self)@.is_creation_of(old(self)@, r),
            exists|label: String| #[trigger]
                call_ensures(T::node_graph_label, (&template, user_state), label)
                    && final(self)@.graph.nodes()[r].label == label@,
            exists|data: NodeData| #[trigger]
                call_ensures(T::user_data, (&template, user_state), data)
                    && final(self)@.graph.nodes()[r].user_data == data,
            exists|label: String, data: NodeData, g: &mut Graph<NodeData, DataType, ValueType>|
                #![trigger
                    call_ensures(T::node_graph_label, (&template, user_state), label),
                    call_ensures(T::user_data, (&template, user_state), data),
                    call_ensures(T::build_node, (&template, g, user_state, r), ())]
                call_ensures(T::node_graph_label, (&template, user_state), label)
                    && call_ensures(T::user_data, (&template, user_state), data)
                    && g.is_with_new_node(&old(self)@.graph, r, label@, data) && *final(g)
                    == final(self)@.graph && call_ensures(
                    T::build_node,
                    (&template, g, user_state, r),
                    (),
                ),
    {
        let label = template.node_graph_label(user_state);
        let user_data = template.user_data(user_state);
        let builder = |graph: &mut Graph<NodeData, DataType, ValueType>, node_id: NodeId|
            requires
                old(graph).wf(),
                old(graph).nodes().contains_key(node_id),
            ensures
                final(graph).builds_on(old(graph), node_id),
                exists|g: &mut Graph<NodeData, DataType, ValueType>|
                    *g == *old(graph) && *final(g) == *final(graph) && #[trigger] call_ensures(
                        T::build_node,
                        (&template, g, user_state, node_id),
                        (),
                    ),
            {
                template.build_node(graph, user_state, node_id);
            };
        let ghost label_view = label@;
        let ghost data = user_data;
        let new_node = self.graph.add_node(label, user_data, builder);
        proof {
            let g = choose|g: &mut Graph<NodeData, DataType, ValueType>|
                g.is_with_new_node(&old(self).graph, new_node, label_view, data) && *final(g)
                    == self.graph && #[trigger] builder.ensures((g, new_node), ());
            assert(final(g).builds_on(&*g, new_node));
            let built = choose|built: &mut Graph<NodeData, DataType, ValueType>|
                *built == *g && *final(built) == *final(g) && #[trigger] call_ensures(
                    T::build_node,
                    (&template, built, user_state, new_node),
                    (),
                );
            assert(built.is_with_new_node(&old(self).graph, new_node, label_view, data));
            assert(self.graph.nodes().dom() =~= old(self).graph.nodes().dom().insert(new_node));
            assert forall|n: NodeId| #[trigger]
                old(self).graph.nodes().contains_key(n) implies self.graph.nodes()[n] == old(
                self,
            ).graph.nodes()[n] by {
                assert(g.nodes().contains_key(n));
            }
            old(self).graph.lemma_wf_consistent();
            self.graph.lemma_node_keys_inserted(&old(self).graph, new_node);
            self.graph.lemma_node_keys();
            old(self).graph.lemma_node_keys();
            assert(old(self)@.gesture_in_graph());
            assert forall|other: u64| #[trigger]
                point_entries(self.node_positions).dom().contains(other) && slot_of(
                    other,
                ) == slot_of(new_node.raw) implies other == new_node.raw by {
                assert(self.graph.node_keys().contains(other));
                assert(self.graph.node_keys().contains(new_node.raw));
            }
        }
        let pos = self.pan_zoom.screen2logical(self.node_finder.pos);
        let _ = point_map_insert(&mut self.node_positions, new_node.key(), pos);
        self.selected_nodes.clear();
        let _ = self.selected_nodes.insert(new_node.key());
        let node = self.graph.node(new_node);
        let input_ids = node.input_ids();
        let output_ids = node.output_ids();
        register_inputs(&mut self.port_positions, &input_ids);
        register_outputs(&mut self.port_positions, &output_ids);
        proof {
            assert(self@.selected =~= Set::<NodeId>::empty().insert(new_node));
            assert(self@.positions =~= old(self)@.positions.insert(
                new_node,
                old(self)@.pan_zoom.spec_screen2logical(old(self)@.node_finder.pos),
            ));
            assert(self@.positions.dom() =~= self@.graph.nodes().dom());
        }
        new_node
    }

    /// Tells whether the gesture under way speaks of the node or of one of
    /// its ports.
    fn gesture_touches(&self, node_id: NodeId) -> (r: bool)
        requires
            self.wf(),
        ensures
            r == self@.gesture_on_node(node_id),
    {
        proof {
            assert(self@.gesture_in_graph());
        }
        match self.drag_state {
            Some(DragState::MoveNode { id, shift: _ }) => id == node_id,
            Some(DragState::ConnectPort(ConnectionInProgress::FromInput { src, dest })) => {
                self.graph.input(src).node == node_id || match dest {
                    ConnectTo::Id(output) => self.graph.output(output).node == node_id,
                    ConnectTo::Pos(_) => false,
                }
            },
            Some(DragState::ConnectPort(ConnectionInProgress::FromOutput { src, dest })) => {
                self.graph.output(src).node == node_id || match dest {
                    ConnectTo::Id(input) => self.graph.input(input).node == node_id,
                    ConnectTo::Pos(_) => false,
                }
            },
            _ => false,
        }
    }

    /// Deletes the node: from the graph, with its ports and the connections
    /// at them, from the selection, and its ports from the registry of port
    /// positions. A gesture that speaks of the node or of one of its ports
    /// ends. Returns the node and the connections that went with it.
    pub fn delete_node(&mut self, node_id: NodeId) -> (r: (
        Node<NodeData>,
        Vec<(InputId, OutputId)>,
    ))
        requires
            old(self).wf(),
            old(self)@.graph.nodes().contains_key(node_id),
        ensures
            final(self).wf(),
            final(self)@.is_deletion_of(old(self)@, node_id, r.0@, r.1@),
    {
        let k = node_id.key();
        let touches = self.gesture_touches(node_id);
        let _ = self.selected_nodes.remove(&k);
        let (node, disconnected) = self.graph.remove_node(node_id);
        let _ = point_map_remove(&mut self.node_positions, k);
        let input_ids = node.input_ids();
        let output_ids = node.output_ids();
        forget_inputs(&mut self.port_positions, &input_ids);
        forget_outputs(&mut self.port_positions, &output_ids);
        if touches {
            self.drag_state = None;
        }
        proof {
            assert(old(self)@.gesture_in_graph());
            self.graph.lemma_node_keys_removed(&old(self).graph, node_id);
            assert(self.graph.nodes().dom() =~= old(self).graph.nodes().dom().remove(node_id));
            old(self).graph.lemma_node_keys();
            self.graph.lemma_node_keys();
            assert(self@.selected =~= old(self)@.selected.remove(node_id));
            assert(self@.positions =~= old(self)@.positions.remove(node_id));
            assert(self@.positions.dom() =~= self@.graph.nodes().dom());
        }
        let r = (node, disconnected);
        assert(r.1@ == disconnected@);
        r
    }

    /// Ends the moving of the view, while the view is moved.
    pub fn end_pan(&mut self)
        requires
            old(self).wf(),
        ensures
            final(self).wf(),
            final(self)@ == (match old(self)@.drag_state {
                Some(DragState::Pan { prev_pos: _ }) => EditorView {
                    drag_state: None,
                    ..old(self)@
                },
                _ => old(self)@,
            }),
    {
        match self.drag_state {
            Some(DragState::Pan { prev_pos: _ }) => {
                self.drag_state = None;
                proof {
                    assert(self@.selected =~= old(self)@.selected);
                    assert(self@.positions =~= old(self)@.positions);
                }
            },
            _ => {},
        }
    }

    /// The selected nodes, each once.
    pub fn selected_nodes(&self) -> (r: Vec<NodeId>)
        requires
            self.wf(),
        ensures
            r@.no_duplicates(),
            forall|id: NodeId| r@.contains(id) <==> self@.selected.contains(id),
    {
        let keys = members(&self.selected_nodes);
        let mut picked: Vec<NodeId> = Vec::new();
        let mut i: usize = 0;
        while i < keys.len()
            invariant
                0 <= i <= keys@.len(),
                picked@.len() == i,
                keys@.to_set() == self.selected_nodes@,
                forall|k: u64| #[trigger] self.selected_nodes@.contains(k) ==> is_live_key(k),
                forall|j: int| 0 <= j < i ==> (#[trigger] picked@[j]).raw == keys@[j],
            decreases keys@.len() - i,
        {
            assert(keys@.to_set().contains(keys@[i as int]));
            picked.push(NodeId::from_raw(keys[i]));
            i += 1;
        }
        assert forall|a: int, b: int|
            0 <= a < picked@.len() && 0 <= b < picked@.len() && a != b implies picked@[a]
            != picked@[b] by {
            assert(keys@[a] != keys@[b]);
        }
        assert forall|id: NodeId| picked@.contains(id) <==> self@.selected.contains(id) by {
            if picked@.contains(id) {
                let j = choose|j: int| 0 <= j < picked@.len() && picked@[j] == id;
                assert(keys@.to_set().contains(keys@[j]));
            }
            if self@.selected.contains(id) {
                assert(keys@.to_set().contains(id.raw));
                let j = choose|j: int| 0 <= j < keys@.len() && keys@[j] == id.raw;
                assert(picked@[j] == id);
            }
        }
        picked
    }
}

impl<NodeData, DataType, ValueType> EditorView<NodeData, DataType, ValueType> {
    /// Moving the selection moves it as one body: every selected node goes
    /// from where it was by `delta`, every other node stays where it was,
    /// and no node gains or loses its position.
    pub proof fn lemma_rigid_move(self, delta: Vec2)
        ensures
            self.positions_moved(delta).dom() == self.positions.dom(),
            forall|n: NodeId|
                self.positions.contains_key(n) && self.selected.contains(n)
                    ==> #[trigger] self.positions_moved(delta)[n] == vec2_sum(
                    self.positions[n],
                    delta,
                ),
            forall|n: NodeId|
                self.positions.contains_key(n) && !self.selected.contains(n)
                    ==> #[trigger] self.positions_moved(delta)[n] == self.positions[n],
    {
        assert(self.positions_moved(delta).dom() =~= self.positions.dom());
    }
}

impl<NodeData, DataType, ValueType> Default for GraphEditorState<NodeData, DataType, ValueType> {
    /// An editor with an empty graph, as `new` gives it.
    fn default() -> (r: Self)
        ensures
            r.wf(),
            r@.is_opening(),
            r@.graph.nodes() == Map::<NodeId, NodeView<NodeData>>::empty(),
            r@.graph.inputs() == Map::<InputId, InputParam<DataType, ValueType>>::empty(),
            r@.graph.outputs() == Map::<OutputId, OutputParam<DataType>>::empty(),
            r@.graph.connections() == Map::<InputId, OutputId>::empty(),
            r@.graph.spec_node_count() == 0,
            r@.graph.spec_input_count() == 0,
            r@.graph.spec_output_count() == 0,
            r@.positions == Map::<NodeId, Vec2>::empty(),
    {
        GraphEditorState::new()
    }
}

} // verus!
