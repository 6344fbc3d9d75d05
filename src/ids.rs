use vstd::prelude::*;

verus! {

/// Identifies a node within one graph. Ids are never reused by a graph.
#[derive(Clone, Copy, Debug, PartialEq, Eq, Hash, Structural)]
pub struct NodeId(pub u64);

/// One declared input port of a node.
#[derive(Clone, Copy, Debug, PartialEq, Eq, Hash, Structural)]
pub struct InputId {
    pub node: NodeId,
    pub idx: u32,
}

/// One declared output port of a node.
#[derive(Clone, Copy, Debug, PartialEq, Eq, Hash, Structural)]
pub struct OutputId {
    pub node: NodeId,
    pub idx: u32,
}

/// Identifies a named block of generated code.
#[derive(Clone, Copy, Debug, PartialEq, Eq, Hash, Structural)]
pub struct CodeBlockId(pub u32);

impl InputId {
    pub fn new(node: NodeId, idx: u32) -> (r: Self)
        ensures
            r.node == node && r.idx == idx,
    {
        InputId { node, idx }
    }
}

impl InputId {
    pub fn node(&self) -> (r: NodeId)
        ensures
            r == self.node,
    {
        self.node
    }

    /// The key that names this port by position.
    pub fn key(&self) -> (r: crate::value::InputKey)
        ensures
            r == crate::value::InputKey::Idx(self.idx),
    {
        crate::value::InputKey::Idx(self.idx)
    }
}

impl OutputId {
    pub fn node(&self) -> (r: NodeId)
        ensures
            r == self.node,
    {
        self.node
    }

    pub fn new(node: NodeId, idx: u32) -> (r: Self)
        ensures
            r.node == node && r.idx == idx,
    {
        OutputId { node, idx }
    }

    /// The first output of a node.
    pub fn from_node(node: NodeId) -> (r: Self)
        ensures
            r.node == node && r.idx == 0,
    {
        OutputId { node, idx: 0 }
    }
}

} // verus!
