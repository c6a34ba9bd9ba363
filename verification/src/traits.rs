//! What the embedder supplies.

use vstd::prelude::*;

use crate::graph::Graph;
use crate::id_type::NodeId;

verus! {

/// A kind of node that the node finder offers: it says how a node of the
/// kind is labelled, what data it carries, and which ports it has.
pub trait NodeTemplateTrait {
    /// What a node carries.
    type NodeData;

    /// The types of data that ports take and give.
    type DataType;

    /// The values that input ports have while nothing is connected to them.
    type ValueType;

    /// What the embedder keeps for the whole editor.
    type UserState;

    /// The label of a node of this kind.
    fn node_graph_label(&self, user_state: &Self::UserState) -> String;

    /// What a new node of this kind carries.
    fn user_data(&self, user_state: &Self::UserState) -> Self::NodeData;

    /// Gives the node `node_id`, which the graph has, the ports of a node of
    /// this kind. It adds ports to that node and changes nothing else.
    fn build_node(
        &self,
        graph: &mut Graph<Self::NodeData, Self::DataType, Self::ValueType>,
        user_state: &Self::UserState,
        node_id: NodeId,
    )
        requires
            old(graph).wf(),
            old(graph).nodes().contains_key(node_id),
        ensures
            final(graph).builds_on(old(graph), node_id),
    ;
}

} // verus!
