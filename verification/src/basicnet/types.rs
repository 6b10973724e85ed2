//! Identifiers used inside a router.

use crate::util::uid::UniqueId;
use vstd::prelude::*;
use vstd::std_specs::convert::FromSpecImpl;

verus! {

pub type RouterId = UniqueId;

/// Identifier of an interface, local to its router: interfaces are
/// numbered from 0 in the order in which they were created.
#[derive(PartialEq, Eq, Structural, Copy, Clone, Hash, Debug)]
pub struct InterfaceId {
    idx: usize,
}

impl View for InterfaceId {
    type V = nat;

    closed spec fn view(&self) -> nat {
        self.idx as nat
    }
}

impl From<usize> for InterfaceId {
    fn from(idx: usize) -> (r: Self)
        ensures
            r@ == idx,
    {
        InterfaceId { idx }
    }
}

impl FromSpecImpl<usize> for InterfaceId {
    open spec fn obeys_from_spec() -> bool {
        true
    }

    closed spec fn from_spec(idx: usize) -> Self {
        InterfaceId { idx }
    }
}

impl InterfaceId {
    /// The identifier of the interface with the given number.
    pub closed spec fn of(idx: nat) -> InterfaceId {
        InterfaceId { idx: idx as usize }
    }

    pub broadcast proof fn lemma_of(idx: nat)
        requires
            idx <= usize::MAX,
        ensures
            (#[trigger] InterfaceId::of(idx))@ == idx,
    {
    }

    /// Identifiers with the same number are the same identifier.
    pub broadcast proof fn lemma_view_injective(a: InterfaceId, b: InterfaceId)
        requires
            #[trigger] a@ == #[trigger] b@,
        ensures
            a == b,
    {
    }

    pub fn as_idx(&self) -> (r: usize)
        ensures
            r == self@,
    {
        self.idx
    }

    /// Whether this is the interface with the given number.
    pub fn is(&self, other: usize) -> (r: bool)
        ensures
            r == (self@ == other),
    {
        self.idx == other
    }
}

} // verus!
