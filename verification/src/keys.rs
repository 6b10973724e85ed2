//! Identifiers of the components and channels of one simulation run.

use vstd::prelude::*;

verus! {

/// Identifier of a channel within one simulation run.
///
/// Identifiers are handed out sequentially by the simulation driver. The
/// value `usize::MAX` is reserved and marks an identifier that has not been
/// assigned yet.
#[derive(PartialEq, Eq, Structural, Copy, Clone, Hash, Debug)]
pub struct ChannelId {
    id: usize,
}

impl ChannelId {
    /// The index this identifier stands for.
    pub closed spec fn idx(self) -> nat {
        self.id as nat
    }

    /// Identifiers with the same index are the same identifier.
    pub broadcast proof fn lemma_idx_injective(a: ChannelId, b: ChannelId)
        requires
            #[trigger] a.idx() == #[trigger] b.idx(),
        ensures
            a == b,
    {
    }

    pub fn as_idx(&self) -> (r: usize)
        ensures
            r == self.idx(),
    {
        self.id
    }

    pub fn new(id: usize) -> (r: Self)
        ensures
            r.idx() == id,
    {
        ChannelId { id }
    }

    /// Whether this identifier has been assigned, that is, differs from
    /// the reserved value.
    pub fn is_initialized(&self) -> (r: bool)
        ensures
            r == (self.idx() != usize::MAX),
    {
        self.id != usize::MAX
    }
}

impl Default for ChannelId {
    /// The reserved, not yet assigned identifier.
    fn default() -> (r: Self)
        ensures
            r.idx() == usize::MAX,
    {
        ChannelId { id: usize::MAX }
    }
}

/// Identifier of a component within one simulation run, handed out
/// sequentially by the simulation driver.
#[derive(PartialEq, Eq, Structural, Copy, Clone, Hash, Debug)]
pub struct ComponentId {
    id: usize,
}

impl ComponentId {
    /// The index this identifier stands for.
    pub closed spec fn idx(self) -> nat {
        self.id as nat
    }

    /// The identifier that stands for the given index.
    pub closed spec fn of(id: nat) -> ComponentId {
        ComponentId { id: id as usize }
    }

    pub broadcast proof fn lemma_of_idx(id: nat)
        requires
            id <= usize::MAX,
        ensures
            (#[trigger] ComponentId::of(id)).idx() == id,
    {
    }

    /// Identifiers with the same index are the same identifier.
    pub broadcast proof fn lemma_idx_injective(a: ComponentId, b: ComponentId)
        requires
            #[trigger] a.idx() == #[trigger] b.idx(),
        ensures
            a == b,
    {
    }

    pub fn as_idx(&self) -> (r: usize)
        ensures
            r == self.idx(),
    {
        self.id
    }

    pub fn new(id: usize) -> (r: Self)
        ensures
            r.idx() == id,
    {
        ComponentId { id }
    }
}

/// The identifier used as the sender of events that come from outside the
/// simulated system. No component of a run carries it.
pub fn dummy_component() -> (r: ComponentId)
    ensures
        r.idx() == usize::MAX,
{
    ComponentId::new(usize::MAX)
}

} // verus!
