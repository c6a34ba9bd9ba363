//! What the editor keeps beside the graph: the node finder, the positions of
//! the ports, and the gesture that is under way.

use vstd::prelude::*;

use glam::Vec2;
use std::collections::HashMap;

use crate::id_type::{AnyParameterId, InputId, NodeId, OutputId};
use crate::vector::{vec2_from_ints, vec2_zero};

verus! {

broadcast use vstd::std_specs::hash::group_hash_axioms;

/// The menu from which a node is created: whether it is shown, and where.
#[derive(Debug, Clone, Copy)]
pub struct NodeFinder {
    pub pos: Vec2,
    pub is_showing: bool,
}

impl Default for NodeFinder {
    /// The finder hidden, at the origin.
    fn default() -> (r: NodeFinder)
        ensures
            r.pos == vec2_zero(),
            !r.is_showing,
    {
        NodeFinder { pos: vec2_from_ints(0, 0), is_showing: false }
    }
}

/// One value for each port that has one, input ports and output ports apart.
pub struct PortsData<T> {
    input: HashMap<u64, T>,
    output: HashMap<u64, T>,
}

impl<T> PortsData<T> {
    /// The values of the input ports.
    pub closed spec fn inputs(&self) -> Map<InputId, T> {
        Map::new(|id: InputId| self.input@.contains_key(id.raw), |id: InputId| self.input@[id.raw])
    }

    /// The values of the output ports.
    pub closed spec fn outputs(&self) -> Map<OutputId, T> {
        Map::new(
            |id: OutputId| self.output@.contains_key(id.raw),
            |id: OutputId| self.output@[id.raw],
        )
    }

    /// The value of the port, if it has one.
    pub open spec fn value_of(&self, key: AnyParameterId) -> Option<T> {
        match key {
            AnyParameterId::Input(id) => if self.inputs().contains_key(id) {
                Some(self.inputs()[id])
            } else {
                None
            },
            AnyParameterId::Output(id) => if self.outputs().contains_key(id) {
                Some(self.outputs()[id])
            } else {
                None
            },
        }
    }

    /// No port has a value.
    pub fn new() -> (r: Self)
        ensures
            r.inputs() == Map::<InputId, T>::empty(),
            r.outputs() == Map::<OutputId, T>::empty(),
    {
        let r = PortsData { input: HashMap::new(), output: HashMap::new() };
        assert(r.inputs() =~= Map::<InputId, T>::empty());
        assert(r.outputs() =~= Map::<OutputId, T>::empty());
        r
    }

    /// Gives the port the value, and returns the value that it had.
    pub fn insert(&mut self, key: AnyParameterId, value: T) -> (r: Option<T>)
        ensures
            r == old(self).value_of(key),
            match key {
                AnyParameterId::Input(id) => final(self).inputs() == old(self).inputs().insert(
                    id,
                    value,
                ) && final(self).outputs() == old(self).outputs(),
                AnyParameterId::Output(id) => final(self).outputs() == old(self).outputs().insert(
                    id,
                    value,
                ) && final(self).inputs() == old(self).inputs(),
            },
    {
        match key {
            AnyParameterId::Input(id) => {
                let k = id.key();
                let had = self.input.remove(&k);
                let _ = self.input.insert(k, value);
                proof {
                    assert(self.inputs() =~= old(self).inputs().insert(id, value));
                    assert(self.outputs() =~= old(self).outputs());
                }
                had
            },
            AnyParameterId::Output(id) => {
                let k = id.key();
                let had = self.output.remove(&k);
                let _ = self.output.insert(k, value);
                proof {
                    assert(self.outputs() =~= old(self).outputs().insert(id, value));
                    assert(self.inputs() =~= old(self).inputs());
                }
                had
            },
        }
    }

    /// Takes the value of the port away, and returns it.
    pub fn remove(&mut self, key: AnyParameterId) -> (r: Option<T>)
        ensures
            r == old(self).value_of(key),
            match key {
                AnyParameterId::Input(id) => final(self).inputs() == old(self).inputs().remove(id)
                    && final(self).outputs() == old(self).outputs(),
                AnyParameterId::Output(id) => final(self).outputs() == old(self).outputs().remove(
                    id,
                ) && final(self).inputs() == old(self).inputs(),
            },
    {
        match key {
            AnyParameterId::Input(id) => {
                let k = id.key();
                let had = self.input.remove(&k);
                proof {
                    assert(self.inputs() =~= old(self).inputs().remove(id));
                    assert(self.outputs() =~= old(self).outputs());
                }
                had
            },
            AnyParameterId::Output(id) => {
                let k = id.key();
                let had = self.output.remove(&k);
                proof {
                    assert(self.outputs() =~= old(self).outputs().remove(id));
                    assert(self.inputs() =~= old(self).inputs());
                }
                had
            },
        }
    }

    /// The value of the port, if it has one.
    pub fn get(&self, key: AnyParameterId) -> (r: Option<&T>)
        ensures
            match r {
                Some(v) => self.value_of(key) == Some(*v),
                None => self.value_of(key) is None,
            },
    {
        match key {
            AnyParameterId::Input(id) => {
                let k = id.key();
                self.input.get(&k)
            },
            AnyParameterId::Output(id) => {
                let k = id.key();
                self.output.get(&k)
            },
        }
    }
}

impl<T> Default for PortsData<T> {
    fn default() -> (r: Self)
        ensures
            r.inputs() == Map::<InputId, T>::empty(),
            r.outputs() == Map::<OutputId, T>::empty(),
    {
        PortsData::new()
    }
}

/// Where the loose end of a connection in progress is: at a port, or at a
/// point of the screen.
#[derive(Debug, Clone, Copy, PartialEq)]
pub enum ConnectTo<Id> {
    Id(Id),
    Pos(Vec2),
}

impl<Id> ConnectTo<Id> {
    /// The point of the loose end: the point itself, or where `f` says the
    /// port is.
    pub fn map_pos<F: Fn(&Id) -> Vec2>(&self, f: F) -> (r: Vec2)
        requires
            self matches ConnectTo::Id(id) ==> f.requires((&id,)),
        ensures
            match *self {
                ConnectTo::Id(id) => f.ensures((&id,), r),
                ConnectTo::Pos(pos) => r == pos,
            },
    {
        match self {
            ConnectTo::Id(id) => f(id),
            ConnectTo::Pos(pos) => *pos,
        }
    }
}

/// A connection that is being drawn: the port that it started from, and
/// where its loose end is.
#[derive(Debug, Clone, Copy, PartialEq)]
#[allow(inconsistent_fields)]
pub enum ConnectionInProgress {
    FromInput { src: InputId, dest: ConnectTo<OutputId> },
    FromOutput { src: OutputId, dest: ConnectTo<InputId> },
}

impl ConnectionInProgress {
    /// The connection with its loose end at the port, where the port is of
    /// the other direction than the one it started from; else as it is.
    pub open spec fn spec_to_id(self, id: AnyParameterId) -> ConnectionInProgress {
        match (self, id) {
            (
                ConnectionInProgress::FromInput { src, dest: _ },
                AnyParameterId::Output(id),
            ) => ConnectionInProgress::FromInput { src, dest: ConnectTo::Id(id) },
            (
                ConnectionInProgress::FromOutput { src, dest: _ },
                AnyParameterId::Input(id),
            ) => ConnectionInProgress::FromOutput { src, dest: ConnectTo::Id(id) },
            _ => self,
        }
    }

    /// The connection with its loose end at the point.
    pub open spec fn spec_to_pos(self, pos: Vec2) -> ConnectionInProgress {
        match self {
            ConnectionInProgress::FromInput { src, dest: _ } => ConnectionInProgress::FromInput {
                src,
                dest: ConnectTo::Pos(pos),
            },
            ConnectionInProgress::FromOutput { src, dest: _ } => ConnectionInProgress::FromOutput {
                src,
                dest: ConnectTo::Pos(pos),
            },
        }
    }

    /// The two ports that the connection joins, if its loose end is at a port.
    pub open spec fn spec_pair(self) -> Option<(OutputId, InputId)> {
        match self {
            ConnectionInProgress::FromInput { src: input, dest: ConnectTo::Id(output) } => Some(
                (output, input),
            ),
            ConnectionInProgress::FromOutput { src: output, dest: ConnectTo::Id(input) } => Some(
                (output, input),
            ),
            _ => None,
        }
    }

    /// The two ports that the connection would join with its loose end at
    /// the port, if the port is of the other direction than the one it
    /// started from.
    pub open spec fn spec_pair_with(self, id: AnyParameterId) -> Option<(OutputId, InputId)> {
        match (self, id) {
            (
                ConnectionInProgress::FromInput { src: input, dest: _ },
                AnyParameterId::Output(output),
            ) => Some((output, input)),
            (
                ConnectionInProgress::FromOutput { src: output, dest: _ },
                AnyParameterId::Input(input),
            ) => Some((output, input)),
            _ => None,
        }
    }

    /// Whether the loose end is at a point, not at a port.
    pub open spec fn is_loose(self) -> bool {
        match self {
            ConnectionInProgress::FromInput { src: _, dest: ConnectTo::Pos(_) } => true,
            ConnectionInProgress::FromOutput { src: _, dest: ConnectTo::Pos(_) } => true,
            _ => false,
        }
    }

    /// A connection that starts from the port, with its loose end at the point.
    pub open spec fn spec_from_port(id: AnyParameterId, pos: Vec2) -> ConnectionInProgress {
        match id {
            AnyParameterId::Input(id) => ConnectionInProgress::FromInput {
                src: id,
                dest: ConnectTo::Pos(pos),
            },
            AnyParameterId::Output(id) => ConnectionInProgress::FromOutput {
                src: id,
                dest: ConnectTo::Pos(pos),
            },
        }
    }

    /// Puts the loose end at the port, where the port is of the other
    /// direction than the one that the connection started from.
    pub fn to_id(&mut self, id: AnyParameterId)
        ensures
            *final(self) == old(self).spec_to_id(id),
    {
        match (&*self, id) {
            (ConnectionInProgress::FromInput { src, dest: _ }, AnyParameterId::Output(id)) => {
                *self = ConnectionInProgress::FromInput { src: *src, dest: ConnectTo::Id(id) };
            },
            (ConnectionInProgress::FromOutput { src, dest: _ }, AnyParameterId::Input(id)) => {
                *self = ConnectionInProgress::FromOutput { src: *src, dest: ConnectTo::Id(id) };
            },
            _ => {},
        }
    }

    /// Puts the loose end at the point.
    pub fn to_pos(&mut self, pos: Vec2)
        ensures
            *final(self) == old(self).spec_to_pos(pos),
    {
        match &*self {
            ConnectionInProgress::FromInput { src, dest: _ } => {
                *self = ConnectionInProgress::FromInput { src: *src, dest: ConnectTo::Pos(pos) };
            },
            ConnectionInProgress::FromOutput { src, dest: _ } => {
                *self = ConnectionInProgress::FromOutput { src: *src, dest: ConnectTo::Pos(pos) };
            },
        }
    }

    /// The two ports that the connection joins, if its loose end is at a port.
    pub fn pair(&self) -> (r: Option<(&OutputId, &InputId)>)
        ensures
            match r {
                Some((output, input)) => self.spec_pair() == Some((*output, *input)),
                None => self.spec_pair() is None,
            },
    {
        match self {
            ConnectionInProgress::FromInput { src: input, dest: ConnectTo::Id(output) } => Some(
                (output, input),
            ),
            ConnectionInProgress::FromOutput { src: output, dest: ConnectTo::Id(input) } => Some(
                (output, input),
            ),
            _ => None,
        }
    }

    /// The two ports that the connection would join with its loose end at
    /// the port.
    pub fn pair_with(&self, id: AnyParameterId) -> (r: Option<(OutputId, InputId)>)
        ensures
            r == self.spec_pair_with(id),
    {
        match (self, id) {
            (
                ConnectionInProgress::FromInput { src: input, dest: _ },
                AnyParameterId::Output(output),
            ) => Some((output, *input)),
            (
                ConnectionInProgress::FromOutput { src: output, dest: _ },
                AnyParameterId::Input(input),
            ) => Some((*output, input)),
            _ => None,
        }
    }

    /// A connection that starts from the port, with its loose end at the point.
    pub fn from_port(id: AnyParameterId, pos: Vec2) -> (r: ConnectionInProgress)
        ensures
            r == ConnectionInProgress::spec_from_port(id, pos),
    {
        match id {
            AnyParameterId::Input(id) => ConnectionInProgress::FromInput {
                src: id,
                dest: ConnectTo::Pos(pos),
            },
            AnyParameterId::Output(id) => ConnectionInProgress::FromOutput {
                src: id,
                dest: ConnectTo::Pos(pos),
            },
        }
    }
}

/// The gesture that is under way.
#[derive(Debug, Clone, Copy)]
pub enum DragState {
    /// A box is drawn to select the nodes in it; both corners in screen space.
    SelectBox { start: Vec2, end: Vec2 },
    /// The view is moved; `prev_pos` is where the pointer was last.
    Pan { prev_pos: Vec2 },
    /// The selected nodes are moved; `shift` is where in the node `id` the
    /// pointer took hold.
    MoveNode { id: NodeId, shift: Vec2 },
    /// A connection is drawn.
    ConnectPort(ConnectionInProgress),
}

impl From<InputId> for ConnectTo<InputId> {
    fn from(value: InputId) -> (r: Self) {
        ConnectTo::Id(value)
    }
}

impl vstd::std_specs::convert::FromSpecImpl<InputId> for ConnectTo<InputId> {
    open spec fn obeys_from_spec() -> bool {
        true
    }

    open spec fn from_spec(value: InputId) -> Self {
        ConnectTo::Id(value)
    }
}

impl From<OutputId> for ConnectTo<OutputId> {
    fn from(value: OutputId) -> (r: Self) {
        ConnectTo::Id(value)
    }
}

impl vstd::std_specs::convert::FromSpecImpl<OutputId> for ConnectTo<OutputId> {
    open spec fn obeys_from_spec() -> bool {
        true
    }

    open spec fn from_spec(value: OutputId) -> Self {
        ConnectTo::Id(value)
    }
}

impl<Id> From<Vec2> for ConnectTo<Id> {
    fn from(value: Vec2) -> (r: Self) {
        ConnectTo::Pos(value)
    }
}

impl<Id> vstd::std_specs::convert::FromSpecImpl<Vec2> for ConnectTo<Id> {
    open spec fn obeys_from_spec() -> bool {
        true
    }

    open spec fn from_spec(value: Vec2) -> Self {
        ConnectTo::Pos(value)
    }
}

impl From<(AnyParameterId, Vec2)> for ConnectionInProgress {
    fn from(value: (AnyParameterId, Vec2)) -> (r: Self) {
        ConnectionInProgress::from_port(value.0, value.1)
    }
}

impl vstd::std_specs::convert::FromSpecImpl<(AnyParameterId, Vec2)> for ConnectionInProgress {
    open spec fn obeys_from_spec() -> bool {
        true
    }

    open spec fn from_spec(value: (AnyParameterId, Vec2)) -> Self {
        ConnectionInProgress::spec_from_port(value.0, value.1)
    }
}

impl From<(OutputId, Vec2)> for ConnectionInProgress {
    fn from(value: (OutputId, Vec2)) -> (r: Self) {
        ConnectionInProgress::FromOutput { src: value.0, dest: ConnectTo::Pos(value.1) }
    }
}

impl vstd::std_specs::convert::FromSpecImpl<(OutputId, Vec2)> for ConnectionInProgress {
    open spec fn obeys_from_spec() -> bool {
        true
    }

    open spec fn from_spec(value: (OutputId, Vec2)) -> Self {
        ConnectionInProgress::FromOutput { src: value.0, dest: ConnectTo::Pos(value.1) }
    }
}

impl From<(InputId, Vec2)> for ConnectionInProgress {
    fn from(value: (InputId, Vec2)) -> (r: Self) {
        ConnectionInProgress::FromInput { src: value.0, dest: ConnectTo::Pos(value.1) }
    }
}

impl vstd::std_specs::convert::FromSpecImpl<(InputId, Vec2)> for ConnectionInProgress {
    open spec fn obeys_from_spec() -> bool {
        true
    }

    open spec fn from_spec(value: (InputId, Vec2)) -> Self {
        ConnectionInProgress::FromInput { src: value.0, dest: ConnectTo::Pos(value.1) }
    }
}

} // verus!
