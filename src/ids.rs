use vstd::prelude::*;

verus! {

/// Identifier of a node in a graph (one-based).
#[derive(Debug, Clone, Copy, PartialEq, Eq, Structural, Hash)]
pub struct NodeId(u32);

impl View for NodeId {
    type V = nat;

    closed spec fn view(&self) -> nat {
        self.0 as nat
    }
}

impl NodeId {
    /// Create a new node identifier from a one-based index.
    pub fn new(id: u32) -> (r: Self)
        requires
            id >= 1,
        ensures
            r@ == id,
    {
        NodeId(id)
    }

    /// Get the one-based node index.
    pub fn id(&self) -> (r: u32)
        ensures
            r == self@,
    {
        self.0
    }

    /// Get the zero-based index of the node in the graph's node array.
    pub fn index(&self) -> (r: usize)
        requires
            self@ >= 1,
        ensures
            r == self@ - 1,
    {
        (self.0 - 1) as usize
    }

    /// Two identifiers are equal exactly when their indices are.
    pub proof fn lemma_view_eq(a: NodeId, b: NodeId)
        ensures
            (a@ == b@) == (a == b),
            a@ <= u32::MAX,
    {
    }
}

/// Identifier of a slot in a graph (one-based).
#[derive(Debug, Clone, Copy, PartialEq, Eq, Structural, Hash)]
pub struct SlotId(u32);

impl View for SlotId {
    type V = nat;

    closed spec fn view(&self) -> nat {
        self.0 as nat
    }
}

impl SlotId {
    /// Create a new slot identifier from a one-based index.
    pub fn new(id: u32) -> (r: Self)
        requires
            id >= 1,
        ensures
            r@ == id,
    {
        SlotId(id)
    }

    /// Get the one-based slot index.
    pub fn id(&self) -> (r: u32)
        ensures
            r == self@,
    {
        self.0
    }

    /// Get the zero-based index of the slot in the graph's slot array.
    pub fn index(&self) -> (r: usize)
        requires
            self@ >= 1,
        ensures
            r == self@ - 1,
    {
        (self.0 - 1) as usize
    }

    /// Two identifiers are equal exactly when their indices are.
    pub proof fn lemma_view_eq(a: SlotId, b: SlotId)
        ensures
            (a@ == b@) == (a == b),
            a@ <= u32::MAX,
    {
    }
}

} // verus!
