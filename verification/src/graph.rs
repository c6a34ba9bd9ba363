//! The graph: nodes, their ports, and the connections between ports.

use vstd::prelude::*;

use std::collections::HashMap;
use vstd::std_specs::cmp::PartialEqSpec;

use crate::arena::{
    is_live_key, key_entries, key_map_get, key_map_insert, key_map_new, key_map_pairs,
    key_map_remove, slot_keys, slot_of, slots_insert, slots_keys, slots_new, slots_remove,
    KeyArena, KeyMap,
};
use crate::id_type::{AnyParameterId, InputId, NodeId, OutputId};

verus! {

broadcast use vstd::std_specs::hash::group_hash_axioms;

/// The most nodes, and the most ports of either direction, that a graph can
/// take one more of.
pub const ARENA_LIMIT: usize = 0xffff_fffe;

/// Whether a port takes a connection, a constant, or either.
#[derive(Clone, Copy, PartialEq, Eq, Debug, Structural)]
pub enum InputParamKind {
    /// The value comes over a connection.
    ConnectionOnly,
    /// The value is the constant set on the port.
    ConstantOnly,
    /// The value comes over a connection, or is the constant where there is none.
    ConnectionOrConstant,
}

/// A node: its label, its ports in the order in which they are shown, and
/// what the embedder keeps with it.
#[derive(Debug)]
pub struct Node<NodeData> {
    pub id: NodeId,
    pub label: String,
    pub inputs: Vec<(String, InputId)>,
    pub outputs: Vec<(String, OutputId)>,
    pub user_data: NodeData,
}

/// What a node is, as the contracts see it.
pub struct NodeView<NodeData> {
    pub id: NodeId,
    pub label: Seq<char>,
    pub inputs: Seq<(Seq<char>, InputId)>,
    pub outputs: Seq<(Seq<char>, OutputId)>,
    pub user_data: NodeData,
}

/// An input port.
#[derive(Debug)]
pub struct InputParam<DataType, ValueType> {
    pub id: InputId,
    /// The type of data that the port takes.
    pub typ: DataType,
    /// The value that the port has while nothing is connected to it.
    pub value: ValueType,
    pub kind: InputParamKind,
    /// The node that the port belongs to.
    pub node: NodeId,
    /// Whether the port is shown inside the node.
    pub shown_inline: bool,
}

/// An output port.
#[derive(Debug)]
pub struct OutputParam<DataType> {
    pub id: OutputId,
    /// The node that the port belongs to.
    pub node: NodeId,
    /// The type of data that the port gives.
    pub typ: DataType,
}

/// Why a lookup found nothing.
#[derive(Debug)]
pub enum EguiGraphError {
    /// The node has no port of that name.
    NoParameterNamed(NodeId, String),
    /// The graph has no such port.
    InvalidParameterId(AnyParameterId),
}

/// The named input ports of a list, with each name as its characters.
pub open spec fn input_list_view(list: Seq<(String, InputId)>) -> Seq<(Seq<char>, InputId)> {
    Seq::new(list.len(), |j: int| (list[j].0@, list[j].1))
}

/// The named output ports of a list, with each name as its characters.
pub open spec fn output_list_view(list: Seq<(String, OutputId)>) -> Seq<(Seq<char>, OutputId)> {
    Seq::new(list.len(), |j: int| (list[j].0@, list[j].1))
}

impl<NodeData> View for Node<NodeData> {
    type V = NodeView<NodeData>;

    open spec fn view(&self) -> NodeView<NodeData> {
        NodeView {
            id: self.id,
            label: self.label@,
            inputs: input_list_view(self.inputs@),
            outputs: output_list_view(self.outputs@),
            user_data: self.user_data,
        }
    }
}

impl<NodeData> NodeView<NodeData> {
    /// Whether the node lists the input port.
    pub open spec fn lists_input(self, id: InputId) -> bool {
        exists|j: int| 0 <= j < self.inputs.len() && (#[trigger] self.inputs[j]).1 == id
    }

    /// Whether the node lists the output port.
    pub open spec fn lists_output(self, id: OutputId) -> bool {
        exists|j: int| 0 <= j < self.outputs.len() && (#[trigger] self.outputs[j]).1 == id
    }

    /// Whether no port stands twice in the node's lists.
    pub open spec fn ports_distinct(self) -> bool {
        &&& forall|i: int, j: int|
            0 <= i < j < self.inputs.len() ==> (#[trigger] self.inputs[i]).1 != (
            #[trigger] self.inputs[j]).1
        &&& forall|i: int, j: int|
            0 <= i < j < self.outputs.len() ==> (#[trigger] self.outputs[i]).1 != (
            #[trigger] self.outputs[j]).1
    }
}

/// The place of the input port in the list.
pub open spec fn input_position(list: Seq<(Seq<char>, InputId)>, id: InputId) -> int {
    choose|j: int| 0 <= j < list.len() && (#[trigger] list[j]).1 == id
}

/// The place of the output port in the list.
pub open spec fn output_position(list: Seq<(Seq<char>, OutputId)>, id: OutputId) -> int {
    choose|j: int| 0 <= j < list.len() && (#[trigger] list[j]).1 == id
}

/// Finds the first place of the input port in the list.
fn find_input(list: &Vec<(String, InputId)>, id: InputId) -> (r: Option<usize>)
    ensures
        match r {
            Some(j) => j < list@.len() && list@[j as int].1 == id,
            None => forall|i: int| 0 <= i < list@.len() ==> (#[trigger] list@[i]).1 != id,
        },
{
    let mut j: usize = 0;
    while j < list.len()
        invariant
            0 <= j <= list@.len(),
            forall|i: int| 0 <= i < j ==> (#[trigger] list@[i]).1 != id,
        decreases list@.len() - j,
    {
        if list[j].1 == id {
            return Some(j);
        }
        j += 1;
    }
    None
}

/// Finds the first place of the output port in the list.
fn find_output(list: &Vec<(String, OutputId)>, id: OutputId) -> (r: Option<usize>)
    ensures
        match r {
            Some(j) => j < list@.len() && list@[j as int].1 == id,
            None => forall|i: int| 0 <= i < list@.len() ==> (#[trigger] list@[i]).1 != id,
        },
{
    let mut j: usize = 0;
    while j < list.len()
        invariant
            0 <= j <= list@.len(),
            forall|i: int| 0 <= i < j ==> (#[trigger] list@[i]).1 != id,
        decreases list@.len() - j,
    {
        if list[j].1 == id {
            return Some(j);
        }
        j += 1;
    }
    None
}

/// Takes the listed keys out of the map, and leaves the rest as it is.
fn forget_keys(m: &mut KeyMap, doomed: &Vec<(u64, u64)>)
    requires
        forall|j: int| 0 <= j < doomed@.len() ==> is_live_key((#[trigger] doomed@[j]).0),
    ensures
        forall|q: u64| #[trigger]
            key_entries(*final(m)).contains_key(q) <==> key_entries(*old(m)).contains_key(q) && !(
            exists|j: int| 0 <= j < doomed@.len() && (#[trigger] doomed@[j]).0 == q),
        forall|q: u64| #[trigger]
            key_entries(*final(m)).contains_key(q) ==> key_entries(*final(m))[q] == key_entries(
                *old(m),
            )[q],
{
    let ghost start = key_entries(*m);
    let mut i: usize = 0;
    while i < doomed.len()
        invariant
            0 <= i <= doomed@.len(),
            forall|j: int| 0 <= j < doomed@.len() ==> is_live_key((#[trigger] doomed@[j]).0),
            forall|q: u64| #[trigger]
                key_entries(*m).contains_key(q) <==> start.contains_key(q) && !(exists|j: int|
                    0 <= j < i && (#[trigger] doomed@[j]).0 == q),
            forall|q: u64| #[trigger]
                key_entries(*m).contains_key(q) ==> key_entries(*m)[q] == start[q],
        decreases doomed@.len() - i,
    {
        let ghost before = key_entries(*m);
        let k = doomed[i].0;
        assert(is_live_key(doomed@[i as int].0));
        let _ = key_map_remove(m, k);
        proof {
            assert forall|q: u64| #[trigger]
                key_entries(*m).contains_key(q) <==> start.contains_key(q) && !(exists|j: int|
                    0 <= j < i + 1 && (#[trigger] doomed@[j]).0 == q) by {
                if key_entries(*m).contains_key(q) {
                    assert(before.contains_key(q));
                    assert(q != k);
                    if exists|j: int| 0 <= j < i + 1 && (#[trigger] doomed@[j]).0 == q {
                        let j = choose|j: int| 0 <= j < i + 1 && (#[trigger] doomed@[j]).0 == q;
                        assert(j < i);
                    }
                }
                if start.contains_key(q) && !(exists|j: int|
                    0 <= j < i + 1 && (#[trigger] doomed@[j]).0 == q) {
                    assert(!(exists|j: int| 0 <= j < i && (#[trigger] doomed@[j]).0 == q));
                    assert(before.contains_key(q));
                    assert(doomed@[i as int].0 != q);
                }
            }
        }
        i += 1;
    }
}

/// The connections but those that the output port drives.
pub open spec fn edges_not_from(edges: Map<InputId, OutputId>, output: OutputId) -> Map<
    InputId,
    OutputId,
> {
    Map::new(|i: InputId| edges.contains_key(i) && edges[i] != output, |i: InputId| edges[i])
}

/// The entries of the map whose value is `v`.
fn entries_with_value(m: &KeyMap, v: u64) -> (r: Vec<(u64, u64)>)
    ensures
        forall|j: int|
            0 <= j < r@.len() ==> is_live_key((#[trigger] r@[j]).0) && r@[j].1 == v
                && key_entries(*m).contains_pair(r@[j].0, r@[j].1),
        forall|q: u64|
            key_entries(*m).contains_key(q) && key_entries(*m)[q] == v ==> exists|j: int|
                0 <= j < r@.len() && (#[trigger] r@[j]).0 == q,
{
    let pairs = key_map_pairs(m);
    let mut found: Vec<(u64, u64)> = Vec::new();
    let mut i: usize = 0;
    while i < pairs.len()
        invariant
            0 <= i <= pairs@.len(),
            forall|j: int|
                0 <= j < pairs@.len() ==> is_live_key((#[trigger] pairs@[j]).0)
                    && key_entries(*m).contains_pair(pairs@[j].0, pairs@[j].1),
            forall|j: int|
                0 <= j < found@.len() ==> is_live_key((#[trigger] found@[j]).0) && found@[j].1 == v
                    && key_entries(*m).contains_pair(found@[j].0, found@[j].1),
            forall|a: int|
                0 <= a < i && (#[trigger] pairs@[a]).1 == v ==> exists|j: int|
                    0 <= j < found@.len() && (#[trigger] found@[j]).0 == pairs@[a].0,
        decreases pairs@.len() - i,
    {
        let pair = pairs[i];
        if pair.1 == v {
            let ghost so_far = found@;
            found.push(pair);
            proof {
                assert forall|a: int| 0 <= a < i + 1 && (#[trigger] pairs@[a]).1 == v implies exists|
                    j: int,
                | 0 <= j < found@.len() && (#[trigger] found@[j]).0 == pairs@[a].0 by {
                    if a < i {
                        let j = choose|j: int|
                            0 <= j < so_far.len() && (#[trigger] so_far[j]).0 == pairs@[a].0;
                        assert(found@[j].0 == pairs@[a].0);
                    } else {
                        assert(found@[so_far.len() as int].0 == pairs@[a].0);
                    }
                }
            }
        }
        i += 1;
    }
    proof {
        assert forall|q: u64|
            key_entries(*m).contains_key(q) && key_entries(*m)[q] == v implies exists|j: int|
            0 <= j < found@.len() && (#[trigger] found@[j]).0 == q by {
            let a = choose|a: int| 0 <= a < pairs@.len() && (#[trigger] pairs@[a]).0 == q;
            assert(key_entries(*m).contains_pair(pairs@[a].0, pairs@[a].1));
        }
    }
    found
}

/// The keys of the input ports of a list, in the order of the list.
fn input_keys_of(list: &Vec<(String, InputId)>) -> (r: Vec<u64>)
    ensures
        r@.len() == list@.len(),
        forall|j: int| 0 <= j < r@.len() ==> is_live_key(#[trigger] r@[j]) && r@[j] == list@[j].1.raw,
{
    let mut keys: Vec<u64> = Vec::new();
    let mut i: usize = 0;
    while i < list.len()
        invariant
            0 <= i <= list@.len(),
            keys@.len() == i,
            forall|j: int|
                0 <= j < i ==> is_live_key(#[trigger] keys@[j]) && keys@[j] == list@[j].1.raw,
        decreases list@.len() - i,
    {
        keys.push(list[i].1.key());
        i += 1;
    }
    keys
}

/// The keys of the output ports of a list, in the order of the list.
fn output_keys_of(list: &Vec<(String, OutputId)>) -> (r: Vec<u64>)
    ensures
        r@.len() == list@.len(),
        forall|j: int| 0 <= j < r@.len() ==> is_live_key(#[trigger] r@[j]) && r@[j] == list@[j].1.raw,
{
    let mut keys: Vec<u64> = Vec::new();
    let mut i: usize = 0;
    while i < list.len()
        invariant
            0 <= i <= list@.len(),
            keys@.len() == i,
            forall|j: int|
                0 <= j < i ==> is_live_key(#[trigger] keys@[j]) && keys@[j] == list@[j].1.raw,
        decreases list@.len() - i,
    {
        keys.push(list[i].1.key());
        i += 1;
    }
    keys
}

/// Takes the listed ports out of the store and gives their keys back to the
/// arena that minted them.
fn drop_ports<P>(store: &mut HashMap<u64, P>, arena: &mut KeyArena, doomed: &Vec<u64>)
    requires
        slot_keys(*old(arena)) == old(store)@.dom(),
        old(store)@.dom().finite(),
        forall|j: int|
            0 <= j < doomed@.len() ==> is_live_key(#[trigger] doomed@[j]) && old(
                store,
            )@.contains_key(doomed@[j]),
        forall|a: int, b: int| 0 <= a < b < doomed@.len() ==> doomed@[a] != doomed@[b],
    ensures
        slot_keys(*final(arena)) == final(store)@.dom(),
        forall|q: u64| #[trigger]
            final(store)@.contains_key(q) <==> old(store)@.contains_key(q) && !(exists|j: int|
                0 <= j < doomed@.len() && #[trigger] doomed@[j] == q),
        forall|q: u64| #[trigger]
            final(store)@.contains_key(q) ==> final(store)@[q] == old(store)@[q],
        final(store)@.len() == old(store)@.len() - doomed@.len(),
{
    let ghost start = store@;
    let mut i: usize = 0;
    while i < doomed.len()
        invariant
            0 <= i <= doomed@.len(),
            slot_keys(*arena) == store@.dom(),
            store@.dom().finite(),
            forall|j: int|
                0 <= j < doomed@.len() ==> is_live_key(#[trigger] doomed@[j]) && start.contains_key(
                    doomed@[j],
                ),
            forall|a: int, b: int| 0 <= a < b < doomed@.len() ==> doomed@[a] != doomed@[b],
            forall|q: u64| #[trigger]
                store@.contains_key(q) <==> start.contains_key(q) && !(exists|j: int|
                    0 <= j < i && #[trigger] doomed@[j] == q),
            forall|q: u64| #[trigger] store@.contains_key(q) ==> store@[q] == start[q],
            store@.len() == start.len() - i,
        decreases doomed@.len() - i,
    {
        let ghost before = store@;
        let k = doomed[i];
        proof {
            assert(is_live_key(doomed@[i as int]));
            if exists|j: int| 0 <= j < i && #[trigger] doomed@[j] == k {
                let j = choose|j: int| 0 <= j < i && #[trigger] doomed@[j] == k;
                assert(doomed@[j] != doomed@[i as int]);
            }
            assert(before.contains_key(k));
        }
        let _ = store.remove(&k);
        let _ = slots_remove(arena, k);
        proof {
            assert(store@ == before.remove(k));
            assert forall|q: u64| #[trigger]
                store@.contains_key(q) <==> start.contains_key(q) && !(exists|j: int|
                    0 <= j < i + 1 && #[trigger] doomed@[j] == q) by {
                if store@.contains_key(q) {
                    assert(before.contains_key(q));
                    if exists|j: int| 0 <= j < i + 1 && #[trigger] doomed@[j] == q {
                        let j = choose|j: int| 0 <= j < i + 1 && #[trigger] doomed@[j] == q;
                        assert(j < i);
                    }
                }
                if start.contains_key(q) && !(exists|j: int|
                    0 <= j < i + 1 && #[trigger] doomed@[j] == q) {
                    assert(!(exists|j: int| 0 <= j < i && #[trigger] doomed@[j] == q));
                    assert(before.contains_key(q));
                    assert(doomed@[i as int] != q);
                }
            }
        }
        i += 1;
    }
}

/// The pairs of keys as pairs of handles.
fn edges_of(pairs: &Vec<(u64, u64)>) -> (r: Vec<(InputId, OutputId)>)
    requires
        forall|j: int|
            0 <= j < pairs@.len() ==> is_live_key((#[trigger] pairs@[j]).0) && is_live_key(
                pairs@[j].1,
            ),
    ensures
        r@.len() == pairs@.len(),
        forall|j: int|
            0 <= j < r@.len() ==> (#[trigger] r@[j]).0.raw == pairs@[j].0 && r@[j].1.raw
                == pairs@[j].1,
{
    let mut edges: Vec<(InputId, OutputId)> = Vec::new();
    let mut i: usize = 0;
    while i < pairs.len()
        invariant
            0 <= i <= pairs@.len(),
            edges@.len() == i,
            forall|j: int|
                0 <= j < pairs@.len() ==> is_live_key((#[trigger] pairs@[j]).0) && is_live_key(
                    pairs@[j].1,
                ),
            forall|j: int|
                0 <= j < i ==> (#[trigger] edges@[j]).0.raw == pairs@[j].0 && edges@[j].1.raw
                    == pairs@[j].1,
        decreases pairs@.len() - i,
    {
        let pair = pairs[i];
        assert(is_live_key(pairs@[i as int].0));
        edges.push((InputId::from_raw(pair.0), OutputId::from_raw(pair.1)));
        i += 1;
    }
    edges
}

/// The graph: it owns the nodes, the ports and the connections.
pub struct Graph<NodeData, DataType, ValueType> {
    node_keys: KeyArena,
    input_keys: KeyArena,
    output_keys: KeyArena,
    nodes: HashMap<u64, Node<NodeData>>,
    inputs: HashMap<u64, InputParam<DataType, ValueType>>,
    outputs: HashMap<u64, OutputParam<DataType>>,
    connections: KeyMap,
}

/// Whether the keys are live keys of which no two point to one slot.
pub open spec fn keys_apart(keys: Set<u64>) -> bool {
    &&& keys.finite()
    &&& forall|k: u64| #[trigger] keys.contains(k) ==> is_live_key(k)
    &&& forall|a: u64, b: u64|
        #[trigger] keys.contains(a) && #[trigger] keys.contains(b) && slot_of(a) == slot_of(b)
            ==> a == b
}

impl<NodeData, DataType, ValueType> Graph<NodeData, DataType, ValueType> {
    /// The nodes of the graph.
    pub closed spec fn nodes(&self) -> Map<NodeId, NodeView<NodeData>> {
        Map::new(
            |id: NodeId| self.nodes@.contains_key(id.raw),
            |id: NodeId| self.nodes@[id.raw]@,
        )
    }

    /// The input ports of the graph.
    pub closed spec fn inputs(&self) -> Map<InputId, InputParam<DataType, ValueType>> {
        Map::new(
            |id: InputId| self.inputs@.contains_key(id.raw),
            |id: InputId| self.inputs@[id.raw],
        )
    }

    /// The output ports of the graph.
    pub closed spec fn outputs(&self) -> Map<OutputId, OutputParam<DataType>> {
        Map::new(
            |id: OutputId| self.outputs@.contains_key(id.raw),
            |id: OutputId| self.outputs@[id.raw],
        )
    }

    /// The connections of the graph: for each connected input port, the
    /// output port that drives it.
    pub closed spec fn connections(&self) -> Map<InputId, OutputId> {
        Map::new(
            |id: InputId| key_entries(self.connections).contains_key(id.raw),
            |id: InputId| OutputId { raw: key_entries(self.connections)[id.raw] },
        )
    }

    /// The number of nodes.
    pub closed spec fn spec_node_count(&self) -> nat {
        self.nodes@.len()
    }

    /// The number of input ports.
    pub closed spec fn spec_input_count(&self) -> nat {
        self.inputs@.len()
    }

    /// The number of output ports.
    pub closed spec fn spec_output_count(&self) -> nat {
        self.outputs@.len()
    }

    spec fn node_ok(&self, k: u64) -> bool {
        let node = self.nodes@[k];
        &&& node.id.raw == k
        &&& node@.ports_distinct()
        &&& forall|j: int|
            0 <= j < node.inputs@.len() ==> {
                let p = (#[trigger] node.inputs@[j]).1.raw;
                self.inputs@.contains_key(p) && self.inputs@[p].node.raw == k
            }
        &&& forall|j: int|
            0 <= j < node.outputs@.len() ==> {
                let p = (#[trigger] node.outputs@[j]).1.raw;
                self.outputs@.contains_key(p) && self.outputs@[p].node.raw == k
            }
    }

    spec fn input_ok(&self, k: u64) -> bool {
        let port = self.inputs@[k];
        &&& port.id.raw == k
        &&& self.nodes@.contains_key(port.node.raw)
        &&& self.nodes@[port.node.raw]@.lists_input(port.id)
    }

    spec fn output_ok(&self, k: u64) -> bool {
        let port = self.outputs@[k];
        &&& port.id.raw == k
        &&& self.nodes@.contains_key(port.node.raw)
        &&& self.nodes@[port.node.raw]@.lists_output(port.id)
    }

    spec fn edge_ok(&self, k: u64) -> bool {
        &&& self.inputs@.contains_key(k)
        &&& self.outputs@.contains_key(key_entries(self.connections)[k])
    }

    /// Whether the graph is in order: what it stores hangs together.
    pub closed spec fn wf(&self) -> bool {
        &&& slot_keys(self.node_keys) == self.nodes@.dom()
        &&& slot_keys(self.input_keys) == self.inputs@.dom()
        &&& slot_keys(self.output_keys) == self.outputs@.dom()
        &&& keys_apart(self.nodes@.dom())
        &&& keys_apart(self.inputs@.dom())
        &&& keys_apart(self.outputs@.dom())
        &&& forall|k: u64| self.nodes@.contains_key(k) ==> #[trigger] self.node_ok(k)
        &&& forall|k: u64| self.inputs@.contains_key(k) ==> #[trigger] self.input_ok(k)
        &&& forall|k: u64| self.outputs@.contains_key(k) ==> #[trigger] self.output_ok(k)
        &&& forall|k: u64|
            key_entries(self.connections).contains_key(k) ==> #[trigger] self.edge_ok(k)
    }

    /// Whether every port that a node lists is a port of the graph and
    /// belongs to that node, and every port of the graph is listed, once, by
    /// the node that it belongs to.
    pub open spec fn ports_consistent(&self) -> bool {
        &&& forall|n: NodeId| #[trigger]
            self.nodes().contains_key(n) ==> self.nodes()[n].id == n
                && self.nodes()[n].ports_distinct()
        &&& forall|n: NodeId, j: int|
            self.nodes().contains_key(n) && 0 <= j < self.nodes()[n].inputs.len() ==> {
                let p = (#[trigger] self.nodes()[n].inputs[j]).1;
                self.inputs().contains_key(p) && self.inputs()[p].node == n
            }
        &&& forall|n: NodeId, j: int|
            self.nodes().contains_key(n) && 0 <= j < self.nodes()[n].outputs.len() ==> {
                let p = (#[trigger] self.nodes()[n].outputs[j]).1;
                self.outputs().contains_key(p) && self.outputs()[p].node == n
            }
        &&& forall|p: InputId| #[trigger]
            self.inputs().contains_key(p) ==> self.inputs()[p].id == p && self.nodes().contains_key(
                self.inputs()[p].node,
            ) && self.nodes()[self.inputs()[p].node].lists_input(p)
        &&& forall|p: OutputId| #[trigger]
            self.outputs().contains_key(p) ==> self.outputs()[p].id == p
                && self.nodes().contains_key(self.outputs()[p].node)
                && self.nodes()[self.outputs()[p].node].lists_output(p)
    }

    /// Whether every connection joins two ports of the graph.
    pub open spec fn edges_consistent(&self) -> bool {
        forall|i: InputId| #[trigger]
            self.connections().contains_key(i) ==> self.inputs().contains_key(i)
                && self.outputs().contains_key(self.connections()[i])
    }

    /// In a graph that is in order, the nodes and the ports refer to each
    /// other, and no connection dangles.
    pub proof fn lemma_wf_consistent(&self)
        requires
            self.wf(),
        ensures
            self.ports_consistent(),
            self.edges_consistent(),
    {
        assert forall|n: NodeId| #[trigger] self.nodes().contains_key(n) implies self.nodes()[n].id
            == n && self.nodes()[n].ports_distinct() by {
            assert(self.node_ok(n.raw));
        }
        assert forall|n: NodeId, j: int|
            self.nodes().contains_key(n) && 0 <= j < self.nodes()[n].inputs.len() implies {
            let p = (#[trigger] self.nodes()[n].inputs[j]).1;
            self.inputs().contains_key(p) && self.inputs()[p].node == n
        } by {
            assert(self.node_ok(n.raw));
            let node = self.nodes@[n.raw];
            assert(node.inputs@[j].1 == self.nodes()[n].inputs[j].1);
        }
        assert forall|n: NodeId, j: int|
            self.nodes().contains_key(n) && 0 <= j < self.nodes()[n].outputs.len() implies {
            let p = (#[trigger] self.nodes()[n].outputs[j]).1;
            self.outputs().contains_key(p) && self.outputs()[p].node == n
        } by {
            assert(self.node_ok(n.raw));
            let node = self.nodes@[n.raw];
            assert(node.outputs@[j].1 == self.nodes()[n].outputs[j].1);
        }
        assert forall|p: InputId| #[trigger] self.inputs().contains_key(p) implies self.inputs()[p].id
            == p && self.nodes().contains_key(self.inputs()[p].node)
            && self.nodes()[self.inputs()[p].node].lists_input(p) by {
            assert(self.input_ok(p.raw));
        }
        assert forall|p: OutputId| #[trigger]
            self.outputs().contains_key(p) implies self.outputs()[p].id == p
            && self.nodes().contains_key(self.outputs()[p].node)
            && self.nodes()[self.outputs()[p].node].lists_output(p) by {
            assert(self.output_ok(p.raw));
        }
        assert forall|i: InputId| #[trigger]
            self.connections().contains_key(i) implies self.inputs().contains_key(i)
            && self.outputs().contains_key(self.connections()[i]) by {
            assert(self.edge_ok(i.raw));
        }
    }

    /// A graph without nodes, ports or connections.
    pub fn new() -> (g: Self)
        ensures
            g.wf(),
            g.nodes() == Map::<NodeId, NodeView<NodeData>>::empty(),
            g.inputs() == Map::<InputId, InputParam<DataType, ValueType>>::empty(),
            g.outputs() == Map::<OutputId, OutputParam<DataType>>::empty(),
            g.connections() == Map::<InputId, OutputId>::empty(),
            g.spec_node_count() == 0,
            g.spec_input_count() == 0,
            g.spec_output_count() == 0,
    {
        let g = Graph {
            node_keys: slots_new(),
            input_keys: slots_new(),
            output_keys: slots_new(),
            nodes: HashMap::new(),
            inputs: HashMap::new(),
            outputs: HashMap::new(),
            connections: key_map_new(),
        };
        assert(g.nodes() =~= Map::<NodeId, NodeView<NodeData>>::empty());
        assert(g.inputs() =~= Map::<InputId, InputParam<DataType, ValueType>>::empty());
        assert(g.outputs() =~= Map::<OutputId, OutputParam<DataType>>::empty());
        assert(g.connections() =~= Map::<InputId, OutputId>::empty());
        g
    }

    /// The keys of the nodes.
    pub(crate) closed spec fn node_keys(&self) -> Set<u64> {
        self.nodes@.dom()
    }

    /// The keys of the nodes are those of the node handles, and in a graph
    /// that is in order no two of them point to one slot.
    pub(crate) proof fn lemma_node_keys(&self)
        ensures
            forall|id: NodeId| #[trigger]
                self.nodes().contains_key(id) <==> self.node_keys().contains(id.raw),
            self.wf() ==> keys_apart(self.node_keys()),
            self.wf() ==> self.node_keys().len() == self.spec_node_count(),
    {
    }

    /// Two graphs with the same node handles have the same node keys.
    pub(crate) proof fn lemma_same_node_keys(&self, other: &Self)
        requires
            self.nodes().dom() == other.nodes().dom(),
        ensures
            self.node_keys() == other.node_keys(),
    {
        assert forall|k: u64| self.node_keys().contains(k) <==> other.node_keys().contains(k) by {
            let id = NodeId { raw: k };
            assert(self.nodes().dom().contains(id) <==> self.node_keys().contains(k));
            assert(other.nodes().dom().contains(id) <==> other.node_keys().contains(k));
        }
        assert(self.node_keys() =~= other.node_keys());
    }

    /// A graph with one node handle more has one node key more.
    pub(crate) proof fn lemma_node_keys_inserted(&self, other: &Self, id: NodeId)
        requires
            self.nodes().dom() == other.nodes().dom().insert(id),
        ensures
            self.node_keys() == other.node_keys().insert(id.raw),
    {
        assert forall|k: u64|
            self.node_keys().contains(k) <==> other.node_keys().insert(id.raw).contains(k) by {
            let n = NodeId { raw: k };
            assert(self.nodes().dom().contains(n) <==> self.node_keys().contains(k));
            assert(other.nodes().dom().contains(n) <==> other.node_keys().contains(k));
        }
        assert(self.node_keys() =~= other.node_keys().insert(id.raw));
    }

    /// A graph with one node handle less has one node key less.
    pub(crate) proof fn lemma_node_keys_removed(&self, other: &Self, id: NodeId)
        requires
            self.nodes().dom() == other.nodes().dom().remove(id),
        ensures
            self.node_keys() == other.node_keys().remove(id.raw),
    {
        assert forall|k: u64|
            self.node_keys().contains(k) <==> other.node_keys().remove(id.raw).contains(k) by {
            let n = NodeId { raw: k };
            assert(self.nodes().dom().contains(n) <==> self.node_keys().contains(k));
            assert(other.nodes().dom().contains(n) <==> other.node_keys().contains(k));
        }
        assert(self.node_keys() =~= other.node_keys().remove(id.raw));
    }

    /// Whether this graph is `before` with ports added to the node `id` and
    /// nothing else changed: it has the nodes of `before`, each but `id` as
    /// it was, every port of `before` as it was, and the same connections.
    pub open spec fn builds_on(&self, before: &Self, id: NodeId) -> bool {
        &&& self.wf()
        &&& self.nodes().dom() == before.nodes().dom()
        &&& forall|n: NodeId|
            n != id && #[trigger] before.nodes().contains_key(n) ==> self.nodes()[n]
                == before.nodes()[n]
        &&& self.nodes()[id].id == before.nodes()[id].id
        &&& self.nodes()[id].label == before.nodes()[id].label
        &&& self.nodes()[id].user_data == before.nodes()[id].user_data
        &&& before.inputs().submap_of(self.inputs())
        &&& before.outputs().submap_of(self.outputs())
        &&& self.connections() == before.connections()
        &&& self.spec_node_count() == before.spec_node_count()
    }

    /// Tells whether the graph has the node.
    pub fn contains_node(&self, id: NodeId) -> (r: bool)
        ensures
            r == self.nodes().contains_key(id),
    {
        let k = id.key();
        self.nodes.contains_key(&k)
    }

    /// Whether `other` has the nodes and the ports of this graph.
    pub open spec fn same_nodes_and_ports(&self, other: &Self) -> bool {
        &&& self.nodes() == other.nodes()
        &&& self.inputs() == other.inputs()
        &&& self.outputs() == other.outputs()
        &&& self.spec_node_count() == other.spec_node_count()
        &&& self.spec_input_count() == other.spec_input_count()
        &&& self.spec_output_count() == other.spec_output_count()
    }

    /// Whether the two ports take and give the same type of data, as the
    /// equality of `DataType` has it.
    pub open spec fn types_match(&self, output: OutputId, input: InputId) -> bool where
        DataType: PartialEq,
     {
        self.outputs()[output].typ.eq_spec(&self.inputs()[input].typ)
    }

    /// Whether comparing the types of data of the two ports, as the
    /// equality of `DataType` does it, can answer `answer`.
    pub open spec fn comparison_answers(&self, output: OutputId, input: InputId, answer: bool) -> bool where
        DataType: PartialEq,
     {
        call_ensures(
            DataType::eq,
            (&self.outputs()[output].typ, &self.inputs()[input].typ),
            answer,
        )
    }

    /// The number of nodes.
    pub fn node_count(&self) -> (r: usize)
        ensures
            r == self.spec_node_count(),
    {
        self.nodes.len()
    }

    /// The number of input ports.
    pub fn input_count(&self) -> (r: usize)
        ensures
            r == self.spec_input_count(),
    {
        self.inputs.len()
    }

    /// The number of output ports.
    pub fn output_count(&self) -> (r: usize)
        ensures
            r == self.spec_output_count(),
    {
        self.outputs.len()
    }

    /// The node, if the graph has it.
    pub fn get_node(&self, id: NodeId) -> (r: Option<&Node<NodeData>>)
        ensures
            r is Some <==> self.nodes().contains_key(id),
            r is Some ==> r->0@ == self.nodes()[id],
    {
        let k = id.key();
        self.nodes.get(&k)
    }

    /// The node. The graph has it.
    pub fn node(&self, id: NodeId) -> (r: &Node<NodeData>)
        requires
            self.nodes().contains_key(id),
        ensures
            r@ == self.nodes()[id],
    {
        let k = id.key();
        let found = self.nodes.get(&k);
        found.unwrap()
    }

    /// The input port, if the graph has it.
    pub fn get_input(&self, id: InputId) -> (r: Option<&InputParam<DataType, ValueType>>)
        ensures
            r is Some <==> self.inputs().contains_key(id),
            r is Some ==> *r->0 == self.inputs()[id],
    {
        let k = id.key();
        self.inputs.get(&k)
    }

    /// The input port. The graph has it.
    pub fn input(&self, id: InputId) -> (r: &InputParam<DataType, ValueType>)
        requires
            self.inputs().contains_key(id),
        ensures
            *r == self.inputs()[id],
    {
        let k = id.key();
        let found = self.inputs.get(&k);
        found.unwrap()
    }

    /// The output port, if the graph has it.
    pub fn get_output(&self, id: OutputId) -> (r: Option<&OutputParam<DataType>>)
        ensures
            r is Some <==> self.outputs().contains_key(id),
            r is Some ==> *r->0 == self.outputs()[id],
    {
        let k = id.key();
        self.outputs.get(&k)
    }

    /// The output port. The graph has it.
    pub fn output(&self, id: OutputId) -> (r: &OutputParam<DataType>)
        requires
            self.outputs().contains_key(id),
        ensures
            *r == self.outputs()[id],
    {
        let k = id.key();
        let found = self.outputs.get(&k);
        found.unwrap()
    }

    /// The nodes of the graph, each once.
    pub fn iter_nodes(&self) -> (r: Vec<NodeId>)
        requires
            self.wf(),
        ensures
            r@.no_duplicates(),
            forall|id: NodeId| r@.contains(id) <==> self.nodes().contains_key(id),
    {
        let keys = slots_keys(&self.node_keys);
        let mut ids: Vec<NodeId> = Vec::new();
        let mut i: usize = 0;
        while i < keys.len()
            invariant
                self.wf(),
                keys@.no_duplicates(),
                keys@.to_set() == slot_keys(self.node_keys),
                0 <= i <= keys@.len(),
                ids@.len() == i,
                forall|j: int| 0 <= j < i ==> (#[trigger] ids@[j]).raw == keys@[j],
            decreases keys@.len() - i,
        {
            let k = keys[i];
            assert(keys@.to_set().contains(keys@[i as int]));
            ids.push(NodeId::from_raw(k));
            i += 1;
        }
        assert forall|id: NodeId| ids@.contains(id) <==> self.nodes().contains_key(id) by {
            if ids@.contains(id) {
                let j = choose|j: int| 0 <= j < ids@.len() && ids@[j] == id;
                assert(keys@.to_set().contains(keys@[j]));
            }
            if self.nodes().contains_key(id) {
                assert(keys@.to_set().contains(id.raw));
                let j = choose|j: int| 0 <= j < keys@.len() && keys@[j] == id.raw;
                assert(ids@[j] == id);
            }
        }
        ids
    }

    /// The output port that drives the input port, if one does.
    pub fn connection(&self, input: InputId) -> (r: Option<OutputId>)
        requires
            self.wf(),
        ensures
            r == (if self.connections().contains_key(input) {
                Some(self.connections()[input])
            } else {
                None
            }),
    {
        match key_map_get(&self.connections, input.key()) {
            Some(raw) => {
                assert(self.edge_ok(input.raw));
                Some(OutputId::from_raw(raw))
            },
            None => None,
        }
    }

    /// The connections, each once.
    pub fn connection_list(&self) -> (r: Vec<(InputId, OutputId)>)
        requires
            self.wf(),
        ensures
            forall|i: int, j: int| 0 <= i < j < r@.len() ==> r@[i].0 != r@[j].0,
            forall|i: int|
                0 <= i < r@.len() ==> self.connections().contains_pair(
                    (#[trigger] r@[i]).0,
                    r@[i].1,
                ),
            forall|input: InputId|
                self.connections().contains_key(input) ==> exists|i: int|
                    0 <= i < r@.len() && (#[trigger] r@[i]).0 == input,
    {
        let pairs = key_map_pairs(&self.connections);
        let mut edges: Vec<(InputId, OutputId)> = Vec::new();
        let mut i: usize = 0;
        while i < pairs.len()
            invariant
                self.wf(),
                0 <= i <= pairs@.len(),
                edges@.len() == i,
                forall|j: int|
                    0 <= j < pairs@.len() ==> is_live_key((#[trigger] pairs@[j]).0)
                        && key_entries(self.connections).contains_pair(pairs@[j].0, pairs@[j].1),
                forall|j: int|
                    0 <= j < i ==> (#[trigger] edges@[j]).0.raw == pairs@[j].0 && edges@[j].1.raw
                        == pairs@[j].1,
            decreases pairs@.len() - i,
        {
            let (k, v) = pairs[i];
            assert(is_live_key(pairs@[i as int].0));
            assert(self.edge_ok(k));
            edges.push((InputId::from_raw(k), OutputId::from_raw(v)));
            i += 1;
        }
        assert forall|input: InputId| self.connections().contains_key(input) implies exists|i: int|
            0 <= i < edges@.len() && (#[trigger] edges@[i]).0 == input by {
            let j = choose|j: int| 0 <= j < pairs@.len() && #[trigger] pairs@[j].0 == input.raw;
            assert(edges@[j].0 == input);
        }
        edges
    }

    /// Connects the output port to the input port. A connection that the
    /// input port had is replaced.
    pub fn add_connection(&mut self, output: OutputId, input: InputId)
        requires
            old(self).wf(),
            old(self).inputs().contains_key(input),
            old(self).outputs().contains_key(output),
        ensures
            final(self).wf(),
            final(self).connections() == old(self).connections().insert(input, output),
            final(self).same_nodes_and_ports(old(self)),
    {
        assert forall|other: u64| #[trigger]
            key_entries(self.connections).dom().contains(other) && slot_of(other) == slot_of(
                input.raw,
            ) implies other == input.raw by {
            assert(self.edge_ok(other));
        }
        let _ = key_map_insert(&mut self.connections, input.key(), output.key());
        proof {
            assert forall|k: u64| self.nodes@.contains_key(k) implies #[trigger] self.node_ok(
                k,
            ) by {
                assert(old(self).node_ok(k));
            }
            assert forall|k: u64| self.inputs@.contains_key(k) implies #[trigger] self.input_ok(
                k,
            ) by {
                assert(old(self).input_ok(k));
            }
            assert forall|k: u64| self.outputs@.contains_key(k) implies #[trigger] self.output_ok(
                k,
            ) by {
                assert(old(self).output_ok(k));
            }
            assert forall|k: u64|
                key_entries(self.connections).contains_key(k) implies #[trigger] self.edge_ok(
                k,
            ) by {
                if k != input.raw {
                    assert(old(self).edge_ok(k));
                }
            }
            assert(self.connections() =~= old(self).connections().insert(input, output));
        }
    }

    /// Takes away the connection of the input port, and returns the output
    /// port that drove it, if one did.
    pub fn remove_connection(&mut self, input_id: InputId) -> (r: Option<OutputId>)
        requires
            old(self).wf(),
        ensures
            final(self).wf(),
            final(self).connections() == old(self).connections().remove(input_id),
            r == (if old(self).connections().contains_key(input_id) {
                Some(old(self).connections()[input_id])
            } else {
                None
            }),
            final(self).same_nodes_and_ports(old(self)),
    {
        let removed = key_map_remove(&mut self.connections, input_id.key());
        proof {
            assert forall|k: u64| self.nodes@.contains_key(k) implies #[trigger] self.node_ok(
                k,
            ) by {
                assert(old(self).node_ok(k));
            }
            assert forall|k: u64| self.inputs@.contains_key(k) implies #[trigger] self.input_ok(
                k,
            ) by {
                assert(old(self).input_ok(k));
            }
            assert forall|k: u64| self.outputs@.contains_key(k) implies #[trigger] self.output_ok(
                k,
            ) by {
                assert(old(self).output_ok(k));
            }
            assert forall|k: u64|
                key_entries(self.connections).contains_key(k) implies #[trigger] self.edge_ok(
                k,
            ) by {
                assert(old(self).edge_ok(k));
            }
            assert(self.connections() =~= old(self).connections().remove(input_id));
        }
        match removed {
            Some(raw) => {
                assert(old(self).edge_ok(input_id.raw));
                Some(OutputId::from_raw(raw))
            },
            None => None,
        }
    }

    /// Tells whether the output port gives the type of data that the input
    /// port takes. Both are ports of the graph.
    pub fn param_typ_eq(&self, output: OutputId, input: InputId) -> (r: bool) where
        DataType: PartialEq,

        requires
            self.outputs().contains_key(output),
            self.inputs().contains_key(input),
        ensures
            self.comparison_answers(output, input, r),
            DataType::obeys_eq_spec() ==> r == self.types_match(output, input),
    {
        self.output(output).typ == self.input(input).typ
    }

    /// The type of data of the port, or the error if the graph has no such port.
    pub fn any_param_type(&self, param: AnyParameterId) -> (r: Result<DataType, EguiGraphError>) where
        DataType: Clone,

        ensures
            match param {
                AnyParameterId::Input(input) => if self.inputs().contains_key(input) {
                    r is Ok && cloned(self.inputs()[input].typ, r->Ok_0)
                } else {
                    r is Err && r->Err_0 == EguiGraphError::InvalidParameterId(param)
                },
                AnyParameterId::Output(output) => if self.outputs().contains_key(output) {
                    r is Ok && cloned(self.outputs()[output].typ, r->Ok_0)
                } else {
                    r is Err && r->Err_0 == EguiGraphError::InvalidParameterId(param)
                },
            },
    {
        match param {
            AnyParameterId::Input(input) => match self.get_input(input) {
                Some(port) => Ok(port.typ.clone()),
                None => Err(EguiGraphError::InvalidParameterId(param)),
            },
            AnyParameterId::Output(output) => match self.get_output(output) {
                Some(port) => Ok(port.typ.clone()),
                None => Err(EguiGraphError::InvalidParameterId(param)),
            },
        }
    }

    /// Adds an input port to the node, behind the input ports that the node
    /// has, and returns its handle.
    pub fn add_input_param(
        &mut self,
        node_id: NodeId,
        name: String,
        typ: DataType,
        value: ValueType,
        kind: InputParamKind,
        shown_inline: bool,
    ) -> (r: InputId)
        requires
            old(self).wf(),
            old(self).nodes().contains_key(node_id),
            old(self).spec_input_count() < ARENA_LIMIT,
        ensures
            final(self).wf(),
            !old(self).inputs().contains_key(r),
            final(self).inputs() == old(self).inputs().insert(
                r,
                (InputParam { id: r, typ, value, kind, node: node_id, shown_inline }),
            ),
            final(self).nodes() == old(self).nodes().insert(
                node_id,
                (NodeView {
                    inputs: old(self).nodes()[node_id].inputs.push((name@, r)),
                    ..old(self).nodes()[node_id]
                }),
            ),
            final(self).outputs() == old(self).outputs(),
            final(self).connections() == old(self).connections(),
            final(self).spec_node_count() == old(self).spec_node_count(),
            final(self).spec_input_count() == old(self).spec_input_count() + 1,
            final(self).spec_output_count() == old(self).spec_output_count(),
    {
        let nk = node_id.key();
        let k = slots_insert(&mut self.input_keys);
        let id = InputId::from_raw(k);
        let _ = self.inputs.insert(k, InputParam { id, typ, value, kind, node: node_id, shown_inline });
        let taken = self.nodes.remove(&nk);
        let mut node = taken.unwrap();
        let ghost before = node;
        node.inputs.push((name, id));
        let ghost after = node;
        let _ = self.nodes.insert(nk, node);
        proof {
            assert(old(self).node_ok(nk));
            assert(self.nodes@ =~= old(self).nodes@.insert(nk, after));
            assert(self.nodes@.dom() =~= old(self).nodes@.dom());
            assert(after@.inputs =~= before@.inputs.push((name@, id)));
            assert(after@.outputs =~= before@.outputs);
            assert forall|q: u64| self.nodes@.contains_key(q) implies #[trigger] self.node_ok(
                q,
            ) by {
                assert(old(self).node_ok(q));
                if q == nk {
                    assert forall|i: int, j: int| 0 <= i < j < after@.inputs.len() implies (
                    #[trigger] after@.inputs[i]).1 != (#[trigger] after@.inputs[j]).1 by {
                        if j == after@.inputs.len() - 1 {
                            assert(before.inputs@[i].1 == before@.inputs[i].1);
                        } else {
                            assert(before@.inputs[i].1 != before@.inputs[j].1);
                        }
                    }
                    assert forall|j: int| 0 <= j < after.inputs@.len() implies {
                        let p = (#[trigger] after.inputs@[j]).1.raw;
                        self.inputs@.contains_key(p) && self.inputs@[p].node.raw == q
                    } by {
                        if j < before.inputs@.len() {
                            assert(after.inputs@[j] == before.inputs@[j]);
                        }
                    }
                }
            }
            assert forall|q: u64| self.inputs@.contains_key(q) implies #[trigger] self.input_ok(
                q,
            ) by {
                if q == k {
                    assert(after@.inputs[before@.inputs.len() as int].1 == id);
                } else {
                    assert(old(self).input_ok(q));
                    let port = old(self).inputs@[q];
                    if port.node.raw == nk {
                        let j = choose|j: int|
                            0 <= j < before@.inputs.len() && (#[trigger] before@.inputs[j]).1
                                == port.id;
                        assert(after@.inputs[j].1 == port.id);
                    }
                }
            }
            assert forall|q: u64| self.outputs@.contains_key(q) implies #[trigger] self.output_ok(
                q,
            ) by {
                assert(old(self).output_ok(q));
            }
            assert forall|q: u64|
                key_entries(self.connections).contains_key(q) implies #[trigger] self.edge_ok(
                q,
            ) by {
                assert(old(self).edge_ok(q));
            }
            assert(self.inputs() =~= old(self).inputs().insert(
                id,
                InputParam { id, typ, value, kind, node: node_id, shown_inline },
            ));
            assert(self.nodes() =~= old(self).nodes().insert(
                node_id,
                NodeView {
                    inputs: old(self).nodes()[node_id].inputs.push((name@, id)),
                    ..old(self).nodes()[node_id]
                },
            ));
            assert(self.outputs() =~= old(self).outputs());
            assert(self.connections() =~= old(self).connections());
        }
        id
    }

    /// Adds an output port to the node, behind the output ports that the node
    /// has, and returns its handle.
    pub fn add_output_param(&mut self, node_id: NodeId, name: String, typ: DataType) -> (r: OutputId)
        requires
            old(self).wf(),
            old(self).nodes().contains_key(node_id),
            old(self).spec_output_count() < ARENA_LIMIT,
        ensures
            final(self).wf(),
            !old(self).outputs().contains_key(r),
            final(self).outputs() == old(self).outputs().insert(
                r,
                (OutputParam { id: r, node: node_id, typ }),
            ),
            final(self).nodes() == old(self).nodes().insert(
                node_id,
                (NodeView {
                    outputs: old(self).nodes()[node_id].outputs.push((name@, r)),
                    ..old(self).nodes()[node_id]
                }),
            ),
            final(self).inputs() == old(self).inputs(),
            final(self).connections() == old(self).connections(),
            final(self).spec_node_count() == old(self).spec_node_count(),
            final(self).spec_input_count() == old(self).spec_input_count(),
            final(self).spec_output_count() == old(self).spec_output_count() + 1,
    {
        let nk = node_id.key();
        let k = slots_insert(&mut self.output_keys);
        let id = OutputId::from_raw(k);
        let _ = self.outputs.insert(k, OutputParam { id, node: node_id, typ });
        let taken = self.nodes.remove(&nk);
        let mut node = taken.unwrap();
        let ghost before = node;
        node.outputs.push((name, id));
        let ghost after = node;
        let _ = self.nodes.insert(nk, node);
        proof {
            assert(old(self).node_ok(nk));
            assert(self.nodes@ =~= old(self).nodes@.insert(nk, after));
            assert(self.nodes@.dom() =~= old(self).nodes@.dom());
            assert(after@.outputs =~= before@.outputs.push((name@, id)));
            assert(after@.inputs =~= before@.inputs);
            assert forall|q: u64| self.nodes@.contains_key(q) implies #[trigger] self.node_ok(
                q,
            ) by {
                assert(old(self).node_ok(q));
                if q == nk {
                    assert forall|i: int, j: int| 0 <= i < j < after@.outputs.len() implies (
                    #[trigger] after@.outputs[i]).1 != (#[trigger] after@.outputs[j]).1 by {
                        if j == after@.outputs.len() - 1 {
                            assert(before.outputs@[i].1 == before@.outputs[i].1);
                        } else {
                            assert(before@.outputs[i].1 != before@.outputs[j].1);
                        }
                    }
                    assert forall|j: int| 0 <= j < after.outputs@.len() implies {
                        let p = (#[trigger] after.outputs@[j]).1.raw;
                        self.outputs@.contains_key(p) && self.outputs@[p].node.raw == q
                    } by {
                        if j < before.outputs@.len() {
                            assert(after.outputs@[j] == before.outputs@[j]);
                        }
                    }
                }
            }
            assert forall|q: u64| self.outputs@.contains_key(q) implies #[trigger] self.output_ok(
                q,
            ) by {
                if q == k {
                    assert(after@.outputs[before@.outputs.len() as int].1 == id);
                } else {
                    assert(old(self).output_ok(q));
                    let port = old(self).outputs@[q];
                    if port.node.raw == nk {
                        let j = choose|j: int|
                            0 <= j < before@.outputs.len() && (#[trigger] before@.outputs[j]).1
                                == port.id;
                        assert(after@.outputs[j].1 == port.id);
                    }
                }
            }
            assert forall|q: u64| self.inputs@.contains_key(q) implies #[trigger] self.input_ok(
                q,
            ) by {
                assert(old(self).input_ok(q));
            }
            assert forall|q: u64|
                key_entries(self.connections).contains_key(q) implies #[trigger] self.edge_ok(
                q,
            ) by {
                assert(old(self).edge_ok(q));
            }
            assert(self.outputs() =~= old(self).outputs().insert(
                id,
                OutputParam { id, node: node_id, typ },
            ));
            assert(self.nodes() =~= old(self).nodes().insert(
                node_id,
                NodeView {
                    outputs: old(self).nodes()[node_id].outputs.push((name@, id)),
                    ..old(self).nodes()[node_id]
                },
            ));
            assert(self.inputs() =~= old(self).inputs());
            assert(self.connections() =~= old(self).connections());
        }
        id
    }

    /// Removes the input port: from the graph, from the list of the node
    /// that it belongs to, and with it the connection that ends in it.
    pub fn remove_input_param(&mut self, param: InputId)
        requires
            old(self).wf(),
            old(self).inputs().contains_key(param),
        ensures
            final(self).wf(),
            final(self).inputs() == old(self).inputs().remove(param),
            final(self).nodes() == ({
                let n = old(self).inputs()[param].node;
                let node = old(self).nodes()[n];
                old(self).nodes().insert(
                    n,
                    NodeView {
                        inputs: node.inputs.remove(input_position(node.inputs, param)),
                        ..node
                    },
                )
            }),
            final(self).connections() == old(self).connections().remove(param),
            final(self).outputs() == old(self).outputs(),
            final(self).spec_node_count() == old(self).spec_node_count(),
            final(self).spec_input_count() == old(self).spec_input_count() - 1,
            final(self).spec_output_count() == old(self).spec_output_count(),
    {
        let k = param.key();
        proof {
            assert(self.input_ok(k));
        }
        let taken_port = self.inputs.remove(&k);
        let port = taken_port.unwrap();
        let _ = slots_remove(&mut self.input_keys, k);
        let nk = port.node.key();
        proof {
            assert(old(self).node_ok(nk));
        }
        let taken_node = self.nodes.remove(&nk);
        let mut node = taken_node.unwrap();
        let ghost before = node;
        let found = find_input(&node.inputs, param);
        let ghost at: int = input_position(before@.inputs, param);
        proof {
            assert(before@.lists_input(param));
            assert(0 <= at < before@.inputs.len() && before@.inputs[at].1 == param);
        }
        match found {
            Some(j) => {
                proof {
                    assert(before@.inputs[j as int].1 == param);
                    if at < j {
                        assert(before@.inputs[at].1 != before@.inputs[j as int].1);
                    }
                    if j < at {
                        assert(before@.inputs[j as int].1 != before@.inputs[at].1);
                    }
                    assert(at == j);
                }
                let _ = node.inputs.remove(j);
            },
            None => {
                proof {
                    assert(before.inputs@[at].1 != param);
                    assert(false);
                }
            },
        }
        let ghost after = node;
        let _ = self.nodes.insert(nk, node);
        let _ = key_map_remove(&mut self.connections, k);
        proof {
            assert(after.inputs@ == before.inputs@.remove(at));
            assert(self.nodes@ =~= old(self).nodes@.insert(nk, after));
            assert(self.nodes@.dom() =~= old(self).nodes@.dom());
            assert(after@.inputs =~= before@.inputs.remove(at));
            assert(after@.outputs =~= before@.outputs);
            assert forall|j: int| 0 <= j < after@.inputs.len() implies (
            #[trigger] after@.inputs[j]).1 != param by {
                if j < at {
                    assert(before@.inputs[j].1 != before@.inputs[at].1);
                } else {
                    assert(before@.inputs[at].1 != before@.inputs[j + 1].1);
                }
            }
            assert forall|q: u64| self.nodes@.contains_key(q) implies #[trigger] self.node_ok(
                q,
            ) by {
                assert(old(self).node_ok(q));
                let cur = self.nodes@[q];
                if q == nk {
                    assert forall|i: int, j: int| 0 <= i < j < after@.inputs.len() implies (
                    #[trigger] after@.inputs[i]).1 != (#[trigger] after@.inputs[j]).1 by {
                        let oi = if i < at { i } else { i + 1 };
                        let oj = if j < at { j } else { j + 1 };
                        assert(before@.inputs[oi].1 != before@.inputs[oj].1);
                    }
                    assert forall|j: int| 0 <= j < after.inputs@.len() implies {
                        let p = (#[trigger] after.inputs@[j]).1.raw;
                        self.inputs@.contains_key(p) && self.inputs@[p].node.raw == q
                    } by {
                        let oj = if j < at { j } else { j + 1 };
                        assert(after.inputs@[j] == before.inputs@[oj]);
                        assert(after@.inputs[j].1 != param);
                    }
                } else {
                    assert forall|j: int| 0 <= j < cur.inputs@.len() implies {
                        let p = (#[trigger] cur.inputs@[j]).1.raw;
                        self.inputs@.contains_key(p) && self.inputs@[p].node.raw == q
                    } by {
                        let p = cur.inputs@[j].1.raw;
                        assert(old(self).inputs@[p].node.raw == q);
                    }
                }
            }
            assert forall|q: u64| self.inputs@.contains_key(q) implies #[trigger] self.input_ok(
                q,
            ) by {
                assert(old(self).input_ok(q));
                let other = old(self).inputs@[q];
                if other.node.raw == nk {
                    let j = choose|j: int|
                        0 <= j < before@.inputs.len() && (#[trigger] before@.inputs[j]).1
                            == other.id;
                    let nj = if j < at { j } else { j - 1 };
                    assert(after@.inputs[nj].1 == other.id);
                }
            }
            assert forall|q: u64| self.outputs@.contains_key(q) implies #[trigger] self.output_ok(
                q,
            ) by {
                assert(old(self).output_ok(q));
            }
            assert forall|q: u64|
                key_entries(self.connections).contains_key(q) implies #[trigger] self.edge_ok(
                q,
            ) by {
                assert(old(self).edge_ok(q));
            }
            assert(self.inputs() =~= old(self).inputs().remove(param));
            assert(self.nodes() =~= ({
                let n = old(self).inputs()[param].node;
                let node = old(self).nodes()[n];
                old(self).nodes().insert(
                    n,
                    NodeView {
                        inputs: node.inputs.remove(input_position(node.inputs, param)),
                        ..node
                    },
                )
            }));
            assert(self.outputs() =~= old(self).outputs());
            assert(self.connections() =~= old(self).connections().remove(param));
        }
    }

    /// Removes the output port: from the graph, from the list of the node
    /// that it belongs to, and with it the connections that it drives.
    pub fn remove_output_param(&mut self, param: OutputId)
        requires
            old(self).wf(),
            old(self).outputs().contains_key(param),
        ensures
            final(self).wf(),
            final(self).outputs() == old(self).outputs().remove(param),
            final(self).nodes() == ({
                let n = old(self).outputs()[param].node;
                let node = old(self).nodes()[n];
                old(self).nodes().insert(
                    n,
                    NodeView {
                        outputs: node.outputs.remove(output_position(node.outputs, param)),
                        ..node
                    },
                )
            }),
            final(self).connections() == edges_not_from(old(self).connections(), param),
            final(self).inputs() == old(self).inputs(),
            final(self).spec_node_count() == old(self).spec_node_count(),
            final(self).spec_input_count() == old(self).spec_input_count(),
            final(self).spec_output_count() == old(self).spec_output_count() - 1,
    {
        let k = param.key();
        proof {
            assert(self.output_ok(k));
        }
        let taken_port = self.outputs.remove(&k);
        let port = taken_port.unwrap();
        let _ = slots_remove(&mut self.output_keys, k);
        let nk = port.node.key();
        proof {
            assert(old(self).node_ok(nk));
        }
        let taken_node = self.nodes.remove(&nk);
        let mut node = taken_node.unwrap();
        let ghost before = node;
        let found = find_output(&node.outputs, param);
        let ghost at: int = output_position(before@.outputs, param);
        proof {
            assert(before@.lists_output(param));
            assert(0 <= at < before@.outputs.len() && before@.outputs[at].1 == param);
        }
        match found {
            Some(j) => {
                proof {
                    assert(before@.outputs[j as int].1 == param);
                    if at < j {
                        assert(before@.outputs[at].1 != before@.outputs[j as int].1);
                    }
                    if j < at {
                        assert(before@.outputs[j as int].1 != before@.outputs[at].1);
                    }
                    assert(at == j);
                }
                let _ = node.outputs.remove(j);
            },
            None => {
                proof {
                    assert(before.outputs@[at].1 != param);
                    assert(false);
                }
            },
        }
        let ghost after = node;
        let _ = self.nodes.insert(nk, node);
        let doomed = entries_with_value(&self.connections, k);
        forget_keys(&mut self.connections, &doomed);
        proof {
            assert(after.outputs@ == before.outputs@.remove(at));
            assert(self.nodes@ =~= old(self).nodes@.insert(nk, after));
            assert(self.nodes@.dom() =~= old(self).nodes@.dom());
            assert(after@.outputs =~= before@.outputs.remove(at));
            assert(after@.inputs =~= before@.inputs);
            assert forall|j: int| 0 <= j < after@.outputs.len() implies (
            #[trigger] after@.outputs[j]).1 != param by {
                if j < at {
                    assert(before@.outputs[j].1 != before@.outputs[at].1);
                } else {
                    assert(before@.outputs[at].1 != before@.outputs[j + 1].1);
                }
            }
            assert forall|q: u64| self.nodes@.contains_key(q) implies #[trigger] self.node_ok(
                q,
            ) by {
                assert(old(self).node_ok(q));
                let cur = self.nodes@[q];
                if q == nk {
                    assert forall|i: int, j: int| 0 <= i < j < after@.outputs.len() implies (
                    #[trigger] after@.outputs[i]).1 != (#[trigger] after@.outputs[j]).1 by {
                        let oi = if i < at { i } else { i + 1 };
                        let oj = if j < at { j } else { j + 1 };
                        assert(before@.outputs[oi].1 != before@.outputs[oj].1);
                    }
                    assert forall|j: int| 0 <= j < after.outputs@.len() implies {
                        let p = (#[trigger] after.outputs@[j]).1.raw;
                        self.outputs@.contains_key(p) && self.outputs@[p].node.raw == q
                    } by {
                        let oj = if j < at { j } else { j + 1 };
                        assert(after.outputs@[j] == before.outputs@[oj]);
                        assert(after@.outputs[j].1 != param);
                    }
                } else {
                    assert forall|j: int| 0 <= j < cur.outputs@.len() implies {
                        let p = (#[trigger] cur.outputs@[j]).1.raw;
                        self.outputs@.contains_key(p) && self.outputs@[p].node.raw == q
                    } by {
                        let p = cur.outputs@[j].1.raw;
                        assert(old(self).outputs@[p].node.raw == q);
                    }
                }
            }
            assert forall|q: u64| self.outputs@.contains_key(q) implies #[trigger] self.output_ok(
                q,
            ) by {
                assert(old(self).output_ok(q));
                let other = old(self).outputs@[q];
                if other.node.raw == nk {
                    let j = choose|j: int|
                        0 <= j < before@.outputs.len() && (#[trigger] before@.outputs[j]).1
                            == other.id;
                    let nj = if j < at { j } else { j - 1 };
                    assert(after@.outputs[nj].1 == other.id);
                }
            }
            assert forall|q: u64| self.inputs@.contains_key(q) implies #[trigger] self.input_ok(
                q,
            ) by {
                assert(old(self).input_ok(q));
            }
            assert forall|q: u64|
                key_entries(self.connections).contains_key(q) implies #[trigger] self.edge_ok(
                q,
            ) by {
                assert(old(self).edge_ok(q));
                if key_entries(old(self).connections)[q] == k {
                    let j = choose|j: int| 0 <= j < doomed@.len() && (#[trigger] doomed@[j]).0 == q;
                    assert(false);
                }
            }
            assert forall|i: InputId|
                old(self).connections().contains_key(i) && old(self).connections()[i]
                    != param implies #[trigger] self.connections().contains_key(i) by {
                if exists|j: int| 0 <= j < doomed@.len() && (#[trigger] doomed@[j]).0 == i.raw {
                    let j = choose|j: int|
                        0 <= j < doomed@.len() && (#[trigger] doomed@[j]).0 == i.raw;
                    assert(key_entries(old(self).connections).contains_pair(
                        doomed@[j].0,
                        doomed@[j].1,
                    ));
                }
            }
            assert(self.outputs() =~= old(self).outputs().remove(param));
            assert(self.nodes() =~= ({
                let n = old(self).outputs()[param].node;
                let node = old(self).nodes()[n];
                old(self).nodes().insert(
                    n,
                    NodeView {
                        outputs: node.outputs.remove(output_position(node.outputs, param)),
                        ..node
                    },
                )
            }));
            assert(self.inputs() =~= old(self).inputs());
            assert(self.connections() =~= edges_not_from(old(self).connections(), param));
        }
    }

    /// The input ports of the graph but those of the node.
    pub open spec fn inputs_off_node(&self, node: NodeId) -> Map<
        InputId,
        InputParam<DataType, ValueType>,
    > {
        Map::new(
            |i: InputId| self.inputs().contains_key(i) && self.inputs()[i].node != node,
            |i: InputId| self.inputs()[i],
        )
    }

    /// The output ports of the graph but those of the node.
    pub open spec fn outputs_off_node(&self, node: NodeId) -> Map<OutputId, OutputParam<DataType>> {
        Map::new(
            |o: OutputId| self.outputs().contains_key(o) && self.outputs()[o].node != node,
            |o: OutputId| self.outputs()[o],
        )
    }

    /// Whether the connection of the input port starts or ends at a port of
    /// the node.
    pub open spec fn edge_touches(&self, input: InputId, node: NodeId) -> bool {
        self.inputs()[input].node == node || self.outputs()[self.connections()[input]].node == node
    }

    /// The connections of the graph but those that start or end at a port of
    /// the node.
    pub open spec fn edges_off_node(&self, node: NodeId) -> Map<InputId, OutputId> {
        Map::new(
            |i: InputId| self.connections().contains_key(i) && !self.edge_touches(i, node),
            |i: InputId| self.connections()[i],
        )
    }

    /// The connections that start or end at a port of the node, each once.
    fn edges_touching(&self, node_id: NodeId) -> (r: Vec<(u64, u64)>)
        requires
            self.wf(),
        ensures
            forall|a: int, b: int| 0 <= a < b < r@.len() ==> r@[a].0 != r@[b].0,
            forall|j: int|
                0 <= j < r@.len() ==> is_live_key((#[trigger] r@[j]).0) && is_live_key(r@[j].1)
                    && key_entries(self.connections).contains_pair(r@[j].0, r@[j].1) && (
                self.inputs@[r@[j].0].node == node_id || self.outputs@[r@[j].1].node == node_id),
            forall|q: u64|
                key_entries(self.connections).contains_key(q) && (self.inputs@[q].node == node_id
                    || self.outputs@[key_entries(self.connections)[q]].node == node_id)
                    ==> exists|j: int| 0 <= j < r@.len() && (#[trigger] r@[j]).0 == q,
    {
        let pairs = key_map_pairs(&self.connections);
        let mut found: Vec<(u64, u64)> = Vec::new();
        let ghost mut origin: Seq<int> = Seq::empty();
        let mut i: usize = 0;
        while i < pairs.len()
            invariant
                self.wf(),
                0 <= i <= pairs@.len(),
                forall|a: int, b: int| 0 <= a < b < pairs@.len() ==> pairs@[a].0 != pairs@[b].0,
                forall|j: int|
                    0 <= j < pairs@.len() ==> is_live_key((#[trigger] pairs@[j]).0)
                        && key_entries(self.connections).contains_pair(pairs@[j].0, pairs@[j].1),
                origin.len() == found@.len(),
                forall|j: int|
                    0 <= j < found@.len() ==> 0 <= #[trigger] origin[j] < i && found@[j]
                        == pairs@[origin[j]],
                forall|a: int, b: int|
                    0 <= a < b < found@.len() ==> #[trigger] origin[a] < #[trigger] origin[b],
                forall|j: int|
                    0 <= j < found@.len() ==> is_live_key((#[trigger] found@[j]).0) && is_live_key(
                        found@[j].1,
                    ) && (self.inputs@[found@[j].0].node == node_id
                        || self.outputs@[found@[j].1].node == node_id),
                forall|a: int|
                    0 <= a < i && (self.inputs@[(#[trigger] pairs@[a]).0].node == node_id
                        || self.outputs@[pairs@[a].1].node == node_id) ==> exists|j: int|
                        0 <= j < found@.len() && (#[trigger] found@[j]).0 == pairs@[a].0,
            decreases pairs@.len() - i,
        {
            let pair = pairs[i];
            proof {
                assert(is_live_key(pairs@[i as int].0));
                assert(self.edge_ok(pair.0));
            }
            let port_in = self.inputs.get(&pair.0);
            let port_out = self.outputs.get(&pair.1);
            let touches = port_out.unwrap().node == node_id || port_in.unwrap().node == node_id;
            if touches {
                let ghost so_far = found@;
                found.push(pair);
                proof {
                    origin = origin.push(i as int);
                    assert forall|a: int|
                        0 <= a < i + 1 && (self.inputs@[(#[trigger] pairs@[a]).0].node == node_id
                            || self.outputs@[pairs@[a].1].node == node_id) implies exists|j: int|
                        0 <= j < found@.len() && (#[trigger] found@[j]).0 == pairs@[a].0 by {
                        if a < i {
                            let j = choose|j: int|
                                0 <= j < so_far.len() && (#[trigger] so_far[j]).0 == pairs@[a].0;
                            assert(found@[j].0 == pairs@[a].0);
                        } else {
                            assert(found@[so_far.len() as int].0 == pairs@[a].0);
                        }
                    }
                }
            }
            i += 1;
        }
        proof {
            assert forall|a: int, b: int| 0 <= a < b < found@.len() implies found@[a].0
                != found@[b].0 by {
                assert(origin[a] < origin[b]);
                assert(pairs@[origin[a]].0 != pairs@[origin[b]].0);
            }
            assert forall|j: int| 0 <= j < found@.len() implies key_entries(
                self.connections,
            ).contains_pair((#[trigger] found@[j]).0, found@[j].1) by {
                assert(found@[j] == pairs@[origin[j]]);
            }
            assert forall|q: u64|
                key_entries(self.connections).contains_key(q) && (self.inputs@[q].node == node_id
                    || self.outputs@[key_entries(self.connections)[q]].node
                    == node_id) implies exists|j: int|
                0 <= j < found@.len() && (#[trigger] found@[j]).0 == q by {
                let a = choose|a: int| 0 <= a < pairs@.len() && (#[trigger] pairs@[a]).0 == q;
                assert(key_entries(self.connections).contains_pair(pairs@[a].0, pairs@[a].1));
            }
        }
        found
    }

    /// Removes the node, its ports, and every connection that starts or ends
    /// at one of them. Returns the node and the connections that went with
    /// it, each as the input port and the output port that it joined.
    pub fn remove_node(&mut self, node_id: NodeId) -> (r: (Node<NodeData>, Vec<(InputId, OutputId)>))
        requires
            old(self).wf(),
            old(self).nodes().contains_key(node_id),
        ensures
            final(self).wf(),
            r.0@ == old(self).nodes()[node_id],
            final(self).nodes() == old(self).nodes().remove(node_id),
            final(self).inputs() == old(self).inputs_off_node(node_id),
            final(self).outputs() == old(self).outputs_off_node(node_id),
            final(self).connections() == old(self).edges_off_node(node_id),
            forall|a: int, b: int| 0 <= a < b < r.1@.len() ==> r.1@[a].0 != r.1@[b].0,
            forall|j: int|
                0 <= j < r.1@.len() ==> old(self).connections().contains_pair(
                    (#[trigger] r.1@[j]).0,
                    r.1@[j].1,
                ) && old(self).edge_touches(r.1@[j].0, node_id),
            forall|i: InputId| #[trigger]
                old(self).connections().contains_key(i) && old(self).edge_touches(i, node_id)
                    ==> exists|j: int| 0 <= j < r.1@.len() && (#[trigger] r.1@[j]).0 == i,
            final(self).spec_node_count() == old(self).spec_node_count() - 1,
            final(self).spec_input_count() == old(self).spec_input_count() - old(
                self,
            ).nodes()[node_id].inputs.len(),
            final(self).spec_output_count() == old(self).spec_output_count() - old(
                self,
            ).nodes()[node_id].outputs.len(),
    {
        let nk = node_id.key();
        let doomed = self.edges_touching(node_id);
        let disconnect_events = edges_of(&doomed);
        forget_keys(&mut self.connections, &doomed);
        proof {
            assert(old(self).node_ok(nk));
        }
        let taken = self.nodes.remove(&nk);
        let removed_node = taken.unwrap();
        let _ = slots_remove(&mut self.node_keys, nk);
        let in_keys = input_keys_of(&removed_node.inputs);
        let out_keys = output_keys_of(&removed_node.outputs);
        proof {
            assert forall|a: int, b: int| 0 <= a < b < in_keys@.len() implies in_keys@[a]
                != in_keys@[b] by {
                assert(removed_node@.inputs[a].1 != removed_node@.inputs[b].1);
            }
            assert forall|a: int, b: int| 0 <= a < b < out_keys@.len() implies out_keys@[a]
                != out_keys@[b] by {
                assert(removed_node@.outputs[a].1 != removed_node@.outputs[b].1);
            }
            assert forall|j: int| 0 <= j < in_keys@.len() implies self.inputs@.contains_key(
                #[trigger] in_keys@[j],
            ) by {
                assert(removed_node.inputs@[j].1.raw == in_keys@[j]);
            }
            assert forall|j: int| 0 <= j < out_keys@.len() implies self.outputs@.contains_key(
                #[trigger] out_keys@[j],
            ) by {
                assert(removed_node.outputs@[j].1.raw == out_keys@[j]);
            }
        }
        drop_ports(&mut self.inputs, &mut self.input_keys, &in_keys);
        drop_ports(&mut self.outputs, &mut self.output_keys, &out_keys);
        proof {
            let before = old(self);
            // Which ports are gone: those of the node, and no others.
            assert forall|q: u64| before.inputs@.contains_key(q) implies (
            #[trigger] self.inputs@.contains_key(q) <==> before.inputs@[q].node != node_id) by {
                assert(before.input_ok(q));
                if before.inputs@[q].node == node_id {
                    let j = choose|j: int|
                        0 <= j < removed_node@.inputs.len() && (
                        #[trigger] removed_node@.inputs[j]).1 == before.inputs@[q].id;
                    assert(in_keys@[j] == q);
                } else if !self.inputs@.contains_key(q) {
                    let j = choose|j: int| 0 <= j < in_keys@.len() && #[trigger] in_keys@[j] == q;
                    assert(removed_node.inputs@[j].1.raw == q);
                }
            }
            assert forall|q: u64| before.outputs@.contains_key(q) implies (
            #[trigger] self.outputs@.contains_key(q) <==> before.outputs@[q].node != node_id) by {
                assert(before.output_ok(q));
                if before.outputs@[q].node == node_id {
                    let j = choose|j: int|
                        0 <= j < removed_node@.outputs.len() && (
                        #[trigger] removed_node@.outputs[j]).1 == before.outputs@[q].id;
                    assert(out_keys@[j] == q);
                } else if !self.outputs@.contains_key(q) {
                    let j = choose|j: int|
                        0 <= j < out_keys@.len() && #[trigger] out_keys@[j] == q;
                    assert(removed_node.outputs@[j].1.raw == q);
                }
            }
            // Which connections are gone: those that touch the node.
            assert forall|q: u64| key_entries(before.connections).contains_key(q) implies (
            #[trigger] key_entries(self.connections).contains_key(q) <==> !(before.inputs@[q].node
                == node_id || before.outputs@[key_entries(before.connections)[q]].node
                == node_id)) by {
                assert(before.edge_ok(q));
                if key_entries(self.connections).contains_key(q) {
                    if before.inputs@[q].node == node_id
                        || before.outputs@[key_entries(before.connections)[q]].node == node_id {
                        let j = choose|j: int|
                            0 <= j < doomed@.len() && (#[trigger] doomed@[j]).0 == q;
                        assert(false);
                    }
                } else {
                    let j = choose|j: int| 0 <= j < doomed@.len() && (#[trigger] doomed@[j]).0 == q;
                    assert(key_entries(before.connections).contains_pair(
                        doomed@[j].0,
                        doomed@[j].1,
                    ));
                }
            }
            assert forall|q: u64| self.nodes@.contains_key(q) implies #[trigger] self.node_ok(
                q,
            ) by {
                assert(before.node_ok(q));
                let cur = self.nodes@[q];
                assert forall|j: int| 0 <= j < cur.inputs@.len() implies {
                    let p = (#[trigger] cur.inputs@[j]).1.raw;
                    self.inputs@.contains_key(p) && self.inputs@[p].node.raw == q
                } by {
                    let p = cur.inputs@[j].1.raw;
                    assert(before.inputs@.contains_key(p));
                    assert(self.inputs@.contains_key(p));
                }
                assert forall|j: int| 0 <= j < cur.outputs@.len() implies {
                    let p = (#[trigger] cur.outputs@[j]).1.raw;
                    self.outputs@.contains_key(p) && self.outputs@[p].node.raw == q
                } by {
                    let p = cur.outputs@[j].1.raw;
                    assert(before.outputs@.contains_key(p));
                    assert(self.outputs@.contains_key(p));
                }
            }
            assert forall|q: u64| self.inputs@.contains_key(q) implies #[trigger] self.input_ok(
                q,
            ) by {
                assert(before.inputs@.contains_key(q));
                assert(before.input_ok(q));
            }
            assert forall|q: u64| self.outputs@.contains_key(q) implies #[trigger] self.output_ok(
                q,
            ) by {
                assert(before.outputs@.contains_key(q));
                assert(before.output_ok(q));
            }
            assert forall|q: u64|
                key_entries(self.connections).contains_key(q) implies #[trigger] self.edge_ok(
                q,
            ) by {
                assert(key_entries(before.connections).contains_key(q));
                assert(before.edge_ok(q));
                let o = key_entries(before.connections)[q];
                assert(self.inputs@.contains_key(q));
                assert(self.outputs@.contains_key(o));
            }
            assert(self.nodes@.dom() =~= before.nodes@.dom().remove(nk));
            assert(self.nodes() =~= before.nodes().remove(node_id));
            assert(self.inputs() =~= before.inputs_off_node(node_id));
            assert(self.outputs() =~= before.outputs_off_node(node_id));
            assert forall|i: InputId| before.connections().contains_key(i) implies (
            #[trigger] self.connections().contains_key(i) <==> !before.edge_touches(
                i,
                node_id,
            )) by {
                assert(before.edge_ok(i.raw));
                assert(key_entries(before.connections).contains_key(i.raw));
            }
            assert(self.connections() =~= before.edges_off_node(node_id));
            assert forall|j: int| 0 <= j < disconnect_events@.len() implies before.connections().contains_pair(
                (#[trigger] disconnect_events@[j]).0,
                disconnect_events@[j].1,
            ) && before.edge_touches(disconnect_events@[j].0, node_id) by {
                assert(key_entries(before.connections).contains_pair(doomed@[j].0, doomed@[j].1));
                assert(before.edge_ok(doomed@[j].0));
            }
            assert forall|i: InputId| #[trigger]
                old(self).connections().contains_key(i) && old(self).edge_touches(
                    i,
                    node_id,
                ) implies exists|j: int|
                0 <= j < disconnect_events@.len() && (#[trigger] disconnect_events@[j]).0 == i by {
                assert(before.edge_ok(i.raw));
                let j = choose|j: int| 0 <= j < doomed@.len() && (#[trigger] doomed@[j]).0 == i.raw;
                assert(0 <= j < doomed@.len() && doomed@[j].0 == i.raw);
                assert(disconnect_events@[j].0 == i);
            }
            assert forall|a: int, b: int|
                0 <= a < b < disconnect_events@.len() implies disconnect_events@[a].0
                != disconnect_events@[b].0 by {
                assert(doomed@[a].0 != doomed@[b].0);
            }
        }
        let r = (removed_node, disconnect_events);
        assert(r.1@ == disconnect_events@);
        r
    }

    /// Whether this graph is `before` with one more node: the node `id`,
    /// which `before` did not have, with the label and the data given and
    /// without ports.
    pub open spec fn is_with_new_node(
        &self,
        before: &Self,
        id: NodeId,
        label: Seq<char>,
        user_data: NodeData,
    ) -> bool {
        &&& self.wf()
        &&& !before.nodes().contains_key(id)
        &&& self.nodes() == before.nodes().insert(
            id,
            NodeView { id, label, inputs: Seq::empty(), outputs: Seq::empty(), user_data },
        )
        &&& self.inputs() == before.inputs()
        &&& self.outputs() == before.outputs()
        &&& self.connections() == before.connections()
        &&& self.spec_node_count() == before.spec_node_count() + 1
        &&& self.spec_input_count() == before.spec_input_count()
        &&& self.spec_output_count() == before.spec_output_count()
    }

    /// Adds a node without ports.
    fn insert_empty_node(&mut self, label: String, user_data: NodeData) -> (r: NodeId)
        requires
            old(self).wf(),
            old(self).spec_node_count() < ARENA_LIMIT,
        ensures
            final(self).is_with_new_node(old(self), r, label@, user_data),
    {
        let k = slots_insert(&mut self.node_keys);
        let id = NodeId::from_raw(k);
        let node = Node { id, label, inputs: Vec::new(), outputs: Vec::new(), user_data };
        let _ = self.nodes.insert(k, node);
        proof {
            assert(node@.inputs =~= Seq::empty());
            assert(node@.outputs =~= Seq::empty());
            assert forall|q: u64| self.nodes@.contains_key(q) implies #[trigger] self.node_ok(
                q,
            ) by {
                if q != k {
                    assert(old(self).node_ok(q));
                }
            }
            assert forall|q: u64| self.inputs@.contains_key(q) implies #[trigger] self.input_ok(
                q,
            ) by {
                assert(old(self).input_ok(q));
            }
            assert forall|q: u64| self.outputs@.contains_key(q) implies #[trigger] self.output_ok(
                q,
            ) by {
                assert(old(self).output_ok(q));
            }
            assert forall|q: u64|
                key_entries(self.connections).contains_key(q) implies #[trigger] self.edge_ok(
                q,
            ) by {
                assert(old(self).edge_ok(q));
            }
            assert(self.nodes() =~= old(self).nodes().insert(
                id,
                NodeView {
                    id,
                    label: label@,
                    inputs: Seq::empty(),
                    outputs: Seq::empty(),
                    user_data,
                },
            ));
            assert(self.inputs() =~= old(self).inputs());
            assert(self.outputs() =~= old(self).outputs());
            assert(self.connections() =~= old(self).connections());
        }
        id
    }

    /// Adds a node and lets `f` give it its ports: `f` gets the graph with
    /// the new node in it, still without ports, and the node's handle. What
    /// `f` leaves is the graph after the call. Returns the node's handle.
    pub fn add_node<F: FnOnce(&mut Graph<NodeData, DataType, ValueType>, NodeId)>(
        &mut self,
        label: String,
        user_data: NodeData,
        f: F,
    ) -> (r: NodeId)
        requires
            old(self).wf(),
            old(self).spec_node_count() < ARENA_LIMIT,
            forall|g: &mut Graph<NodeData, DataType, ValueType>, id: NodeId|
                g.is_with_new_node(old(self), id, label@, user_data) ==> #[trigger] f.requires(
                    (g, id),
                ),
            forall|g: &mut Graph<NodeData, DataType, ValueType>, id: NodeId|
                g.wf() && #[trigger] f.ensures((g, id), ()) ==> final(g).wf(),
        ensures
            final(self).wf(),
            !old(self).nodes().contains_key(r),
            exists|g: &mut Graph<NodeData, DataType, ValueType>|
                g.is_with_new_node(old(self), r, label@, user_data) && *final(g) == *final(self)
                    && #[trigger] f.ensures((g, r), ()),
    {
        let node_id = self.insert_empty_node(label, user_data);
        f(self, node_id);
        node_id
    }
}

impl<NodeData> NodeView<NodeData> {
    /// The input ports of the node, in the order of its list.
    pub open spec fn input_ids(self) -> Seq<InputId> {
        Seq::new(self.inputs.len(), |j: int| self.inputs[j].1)
    }

    /// The output ports of the node, in the order of its list.
    pub open spec fn output_ids(self) -> Seq<OutputId> {
        Seq::new(self.outputs.len(), |j: int| self.outputs[j].1)
    }

    /// Whether `j` is the first place in the list of input ports with that name.
    pub open spec fn input_named_at(self, name: Seq<char>, j: int) -> bool {
        &&& 0 <= j < self.inputs.len()
        &&& self.inputs[j].0 == name
        &&& forall|i: int| 0 <= i < j ==> (#[trigger] self.inputs[i]).0 != name
    }

    /// Whether `j` is the first place in the list of output ports with that name.
    pub open spec fn output_named_at(self, name: Seq<char>, j: int) -> bool {
        &&& 0 <= j < self.outputs.len()
        &&& self.outputs[j].0 == name
        &&& forall|i: int| 0 <= i < j ==> (#[trigger] self.outputs[i]).0 != name
    }

    /// Whether the node has an input port of that name.
    pub open spec fn has_input_named(self, name: Seq<char>) -> bool {
        exists|j: int| 0 <= j < self.inputs.len() && (#[trigger] self.inputs[j]).0 == name
    }

    /// Whether the node has an output port of that name.
    pub open spec fn has_output_named(self, name: Seq<char>) -> bool {
        exists|j: int| 0 <= j < self.outputs.len() && (#[trigger] self.outputs[j]).0 == name
    }
}

impl<NodeData> Node<NodeData> {
    /// The input ports of the node, in the order of its list.
    pub fn input_ids(&self) -> (r: Vec<InputId>)
        ensures
            r@ == self@.input_ids(),
    {
        let mut ids: Vec<InputId> = Vec::new();
        let mut i: usize = 0;
        while i < self.inputs.len()
            invariant
                0 <= i <= self.inputs@.len(),
                ids@.len() == i,
                forall|j: int| 0 <= j < i ==> #[trigger] ids@[j] == self.inputs@[j].1,
            decreases self.inputs@.len() - i,
        {
            ids.push(self.inputs[i].1);
            i += 1;
        }
        assert(ids@ =~= self@.input_ids());
        ids
    }

    /// The output ports of the node, in the order of its list.
    pub fn output_ids(&self) -> (r: Vec<OutputId>)
        ensures
            r@ == self@.output_ids(),
    {
        let mut ids: Vec<OutputId> = Vec::new();
        let mut i: usize = 0;
        while i < self.outputs.len()
            invariant
                0 <= i <= self.outputs@.len(),
                ids@.len() == i,
                forall|j: int| 0 <= j < i ==> #[trigger] ids@[j] == self.outputs@[j].1,
            decreases self.outputs@.len() - i,
        {
            ids.push(self.outputs[i].1);
            i += 1;
        }
        assert(ids@ =~= self@.output_ids());
        ids
    }

    /// The input ports of the node as the graph holds them, in the order of
    /// the node's list. The graph has each of them.
    pub fn inputs<'a, DataType, ValueType>(
        &'a self,
        graph: &'a Graph<NodeData, DataType, ValueType>,
    ) -> (r: Vec<&'a InputParam<DataType, ValueType>>)
        requires
            forall|j: int|
                0 <= j < self@.inputs.len() ==> graph.inputs().contains_key(
                    (#[trigger] self@.inputs[j]).1,
                ),
        ensures
            r@.len() == self@.inputs.len(),
            forall|j: int|
                0 <= j < r@.len() ==> *(#[trigger] r@[j]) == graph.inputs()[self@.inputs[j].1],
    {
        let mut ports: Vec<&'a InputParam<DataType, ValueType>> = Vec::new();
        let mut i: usize = 0;
        while i < self.inputs.len()
            invariant
                0 <= i <= self.inputs@.len(),
                ports@.len() == i,
                forall|j: int|
                    0 <= j < self@.inputs.len() ==> graph.inputs().contains_key(
                        (#[trigger] self@.inputs[j]).1,
                    ),
                forall|j: int|
                    0 <= j < i ==> *(#[trigger] ports@[j]) == graph.inputs()[self@.inputs[j].1],
            decreases self.inputs@.len() - i,
        {
            assert(graph.inputs().contains_key(self@.inputs[i as int].1));
            ports.push(graph.input(self.inputs[i].1));
            i += 1;
        }
        ports
    }

    /// The output ports of the node as the graph holds them, in the order of
    /// the node's list. The graph has each of them.
    pub fn outputs<'a, DataType, ValueType>(
        &'a self,
        graph: &'a Graph<NodeData, DataType, ValueType>,
    ) -> (r: Vec<&'a OutputParam<DataType>>)
        requires
            forall|j: int|
                0 <= j < self@.outputs.len() ==> graph.outputs().contains_key(
                    (#[trigger] self@.outputs[j]).1,
                ),
        ensures
            r@.len() == self@.outputs.len(),
            forall|j: int|
                0 <= j < r@.len() ==> *(#[trigger] r@[j]) == graph.outputs()[self@.outputs[j].1],
    {
        let mut ports: Vec<&'a OutputParam<DataType>> = Vec::new();
        let mut i: usize = 0;
        while i < self.outputs.len()
            invariant
                0 <= i <= self.outputs@.len(),
                ports@.len() == i,
                forall|j: int|
                    0 <= j < self@.outputs.len() ==> graph.outputs().contains_key(
                        (#[trigger] self@.outputs[j]).1,
                    ),
                forall|j: int|
                    0 <= j < i ==> *(#[trigger] ports@[j]) == graph.outputs()[self@.outputs[j].1],
            decreases self.outputs@.len() - i,
        {
            assert(graph.outputs().contains_key(self@.outputs[i as int].1));
            ports.push(graph.output(self.outputs[i].1));
            i += 1;
        }
        ports
    }

    /// The first input port of that name, or the error if the node has none.
    pub fn get_input(&self, name: &str) -> (r: Result<InputId, EguiGraphError>)
        ensures
            match r {
                Ok(id) => exists|j: int| #[trigger]
                    self@.input_named_at(name@, j) && self@.inputs[j].1 == id,
                Err(EguiGraphError::NoParameterNamed(node, missing)) => !self@.has_input_named(
                    name@,
                ) && node == self.id && missing@ == name@,
                Err(_) => false,
            },
    {
        let wanted = name.to_owned();
        let mut i: usize = 0;
        while i < self.inputs.len()
            invariant
                0 <= i <= self.inputs@.len(),
                wanted@ == name@,
                forall|j: int| 0 <= j < i ==> (#[trigger] self@.inputs[j]).0 != name@,
            decreases self.inputs@.len() - i,
        {
            if self.inputs[i].0 == wanted {
                assert(self@.input_named_at(name@, i as int));
                return Ok(self.inputs[i].1);
            }
            i += 1;
        }
        Err(EguiGraphError::NoParameterNamed(self.id, wanted))
    }

    /// The first output port of that name, or the error if the node has none.
    pub fn get_output(&self, name: &str) -> (r: Result<OutputId, EguiGraphError>)
        ensures
            match r {
                Ok(id) => exists|j: int| #[trigger]
                    self@.output_named_at(name@, j) && self@.outputs[j].1 == id,
                Err(EguiGraphError::NoParameterNamed(node, missing)) => !self@.has_output_named(
                    name@,
                ) && node == self.id && missing@ == name@,
                Err(_) => false,
            },
    {
        let wanted = name.to_owned();
        let mut i: usize = 0;
        while i < self.outputs.len()
            invariant
                0 <= i <= self.outputs@.len(),
                wanted@ == name@,
                forall|j: int| 0 <= j < i ==> (#[trigger] self@.outputs[j]).0 != name@,
            decreases self.outputs@.len() - i,
        {
            if self.outputs[i].0 == wanted {
                assert(self@.output_named_at(name@, i as int));
                return Ok(self.outputs[i].1);
            }
            i += 1;
        }
        Err(EguiGraphError::NoParameterNamed(self.id, wanted))
    }
}

impl InputParamKind {
    /// Whether a connector is drawn for a port of this kind: for every kind
    /// that takes a connection.
    pub fn is_should_draw(&self) -> (r: bool)
        ensures
            r == !(*self is ConstantOnly),
    {
        match self {
            InputParamKind::ConnectionOnly => true,
            InputParamKind::ConstantOnly => false,
            InputParamKind::ConnectionOrConstant => true,
        }
    }
}

impl<NodeData, DataType, ValueType> Default for Graph<NodeData, DataType, ValueType> {
    /// A graph without nodes, ports or connections.
    fn default() -> (g: Self)
        ensures
            g.wf(),
            g.nodes() == Map::<NodeId, NodeView<NodeData>>::empty(),
            g.inputs() == Map::<InputId, InputParam<DataType, ValueType>>::empty(),
            g.outputs() == Map::<OutputId, OutputParam<DataType>>::empty(),
            g.connections() == Map::<InputId, OutputId>::empty(),
            g.spec_node_count() == 0,
            g.spec_input_count() == 0,
            g.spec_output_count() == 0,
    {
        Graph::new()
    }
}

impl<NodeData, DataType, ValueType> Graph<NodeData, DataType, ValueType> {
    /// An input port has at most one connection: two connections that end
    /// in one input port start from one output port.
    pub proof fn lemma_edge_unique(&self, input: InputId, a: OutputId, b: OutputId)
        requires
            self.connections().contains_pair(input, a),
            self.connections().contains_pair(input, b),
        ensures
            a == b,
    {
    }

    /// Connecting an input port anew replaces the connection that it had:
    /// after it the port is driven by the new output port alone, and every
    /// other input port by what drove it before.
    pub proof fn lemma_reconnect_replaces(
        before: Map<InputId, OutputId>,
        input: InputId,
        output: OutputId,
    )
        ensures
            before.insert(input, output)[input] == output,
            forall|other: InputId|
                other != input && #[trigger] before.contains_key(other) ==> before.insert(
                    input,
                    output,
                ).contains_pair(other, before[other]),
            forall|other: InputId| #[trigger]
                before.insert(input, output).contains_key(other) ==> other == input
                    || before.contains_key(other),
    {
    }

    /// Once a node is removed nothing of it is left: where `after` is what
    /// removing the node `node` makes of this graph, no port of the node is
    /// a port of `after`, no connection of `after` starts or ends at a port
    /// of the node, and every connection of `after` joins two ports of `after`.
    pub proof fn lemma_cascade_complete(&self, after: &Self, node: NodeId)
        requires
            self.wf(),
            after.wf(),
            self.nodes().contains_key(node),
            after.nodes() == self.nodes().remove(node),
            after.inputs() == self.inputs_off_node(node),
            after.outputs() == self.outputs_off_node(node),
            after.connections() == self.edges_off_node(node),
        ensures
            !after.nodes().contains_key(node),
            forall|j: int|
                0 <= j < self.nodes()[node].inputs.len() ==> !after.inputs().contains_key(
                    (#[trigger] self.nodes()[node].inputs[j]).1,
                ),
            forall|j: int|
                0 <= j < self.nodes()[node].outputs.len() ==> !after.outputs().contains_key(
                    (#[trigger] self.nodes()[node].outputs[j]).1,
                ),
            forall|p: InputId|
                self.inputs().contains_key(p) && self.inputs()[p].node == node
                    ==> !#[trigger] after.inputs().contains_key(p),
            forall|p: OutputId|
                self.outputs().contains_key(p) && self.outputs()[p].node == node
                    ==> !#[trigger] after.outputs().contains_key(p),
            forall|i: InputId| #[trigger]
                after.connections().contains_key(i) ==> {
                    &&& self.inputs()[i].node != node
                    &&& self.outputs()[after.connections()[i]].node != node
                    &&& !self.nodes()[node].lists_input(i)
                    &&& !self.nodes()[node].lists_output(after.connections()[i])
                    &&& after.inputs().contains_key(i)
                    &&& after.outputs().contains_key(after.connections()[i])
                },
    {
        self.lemma_wf_consistent();
        after.lemma_wf_consistent();
        assert forall|i: InputId| #[trigger] after.connections().contains_key(i) implies {
            &&& self.inputs()[i].node != node
            &&& self.outputs()[after.connections()[i]].node != node
            &&& !self.nodes()[node].lists_input(i)
            &&& !self.nodes()[node].lists_output(after.connections()[i])
            &&& after.inputs().contains_key(i)
            &&& after.outputs().contains_key(after.connections()[i])
        } by {
            assert(self.connections().contains_key(i));
            assert(!self.edge_touches(i, node));
            let o = after.connections()[i];
            if self.nodes()[node].lists_input(i) {
                let j = choose|j: int|
                    0 <= j < self.nodes()[node].inputs.len() && (
                    #[trigger] self.nodes()[node].inputs[j]).1 == i;
                assert(self.inputs()[self.nodes()[node].inputs[j].1].node == node);
            }
            if self.nodes()[node].lists_output(o) {
                let j = choose|j: int|
                    0 <= j < self.nodes()[node].outputs.len() && (
                    #[trigger] self.nodes()[node].outputs[j]).1 == o;
                assert(self.outputs()[self.nodes()[node].outputs[j].1].node == node);
            }
        }
    }
}

} // verus!
