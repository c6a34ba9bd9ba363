//! The handles by which nodes and ports are named.
//!
//! A handle is minted by the graph that owns what it names, and nowhere
//! else. Two handles are equal when they name the same thing.

use vstd::prelude::*;

use crate::arena::is_live_key;

verus! {

/// The handle of a node.
#[derive(Clone, Copy, PartialEq, Eq, Hash, Debug, Structural)]
pub struct NodeId {
    pub(crate) raw: u64,
}

/// The handle of an input port.
#[derive(Clone, Copy, PartialEq, Eq, Hash, Debug, Structural)]
pub struct InputId {
    pub(crate) raw: u64,
}

/// The handle of an output port.
#[derive(Clone, Copy, PartialEq, Eq, Hash, Debug, Structural)]
pub struct OutputId {
    pub(crate) raw: u64,
}

/// The handle of a port of either direction.
#[derive(Clone, Copy, PartialEq, Eq, Hash, Debug, Structural)]
pub enum AnyParameterId {
    Input(InputId),
    Output(OutputId),
}

impl NodeId {
    /// Every handle holds a key that an arena can have minted.
    #[verifier::type_invariant]
    pub(crate) open spec fn minted(self) -> bool {
        is_live_key(self.raw)
    }

    pub(crate) fn from_raw(raw: u64) -> (r: Self)
        requires
            is_live_key(raw),
        ensures
            r.raw == raw,
    {
        NodeId { raw }
    }

    pub(crate) fn key(self) -> (r: u64)
        ensures
            r == self.raw,
            is_live_key(r),
    {
        proof {
            use_type_invariant(&self);
        }
        self.raw
    }
}

impl InputId {
    /// Every handle holds a key that an arena can have minted.
    #[verifier::type_invariant]
    pub(crate) open spec fn minted(self) -> bool {
        is_live_key(self.raw)
    }

    pub(crate) fn from_raw(raw: u64) -> (r: Self)
        requires
            is_live_key(raw),
        ensures
            r.raw == raw,
    {
        InputId { raw }
    }

    pub(crate) fn key(self) -> (r: u64)
        ensures
            r == self.raw,
            is_live_key(r),
    {
        proof {
            use_type_invariant(&self);
        }
        self.raw
    }
}

impl OutputId {
    /// Every handle holds a key that an arena can have minted.
    #[verifier::type_invariant]
    pub(crate) open spec fn minted(self) -> bool {
        is_live_key(self.raw)
    }

    pub(crate) fn from_raw(raw: u64) -> (r: Self)
        requires
            is_live_key(raw),
        ensures
            r.raw == raw,
    {
        OutputId { raw }
    }

    pub(crate) fn key(self) -> (r: u64)
        ensures
            r == self.raw,
            is_live_key(r),
    {
        proof {
            use_type_invariant(&self);
        }
        self.raw
    }
}

impl AnyParameterId {
    /// The input handle inside. The caller knows that this is an input.
    pub fn assume_input(&self) -> (r: InputId)
        requires
            self is Input,
        ensures
            *self == AnyParameterId::Input(r),
    {
        match self {
            AnyParameterId::Input(input) => *input,
            AnyParameterId::Output(_) => {
                proof {
                    assert(false);
                }
                unreached()
            },
        }
    }

    /// The output handle inside. The caller knows that this is an output.
    pub fn assume_output(&self) -> (r: OutputId)
        requires
            self is Output,
        ensures
            *self == AnyParameterId::Output(r),
    {
        match self {
            AnyParameterId::Output(output) => *output,
            AnyParameterId::Input(_) => {
                proof {
                    assert(false);
                }
                unreached()
            },
        }
    }
}

impl From<OutputId> for AnyParameterId {
    fn from(output: OutputId) -> (r: Self) {
        AnyParameterId::Output(output)
    }
}

impl vstd::std_specs::convert::FromSpecImpl<OutputId> for AnyParameterId {
    open spec fn obeys_from_spec() -> bool {
        true
    }

    open spec fn from_spec(output: OutputId) -> Self {
        AnyParameterId::Output(output)
    }
}

impl From<InputId> for AnyParameterId {
    fn from(input: InputId) -> (r: Self) {
        AnyParameterId::Input(input)
    }
}

impl vstd::std_specs::convert::FromSpecImpl<InputId> for AnyParameterId {
    open spec fn obeys_from_spec() -> bool {
        true
    }

    open spec fn from_spec(input: InputId) -> Self {
        AnyParameterId::Input(input)
    }
}

} // verus!
