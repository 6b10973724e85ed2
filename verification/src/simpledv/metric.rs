//! The routing metric: a hop count that saturates at a ceiling which
//! stands for "unreachable".

use crate::simpledv::constants::MAX_HOP_COUNT;
use vstd::prelude::*;
use vstd::std_specs::ops::AddSpecImpl;

verus! {

/// The hop count that stands for infinity.
pub open spec fn infinity() -> nat {
    MAX_HOP_COUNT as nat
}

/// The sum of two hop counts: infinity where either is infinity or the
/// plain sum would reach it.
pub open spec fn metric_add(a: nat, b: nat) -> nat {
    if a >= infinity() || b >= infinity() || a + b >= infinity() {
        infinity()
    } else {
        a + b
    }
}

#[derive(Clone, Copy, PartialEq, Eq, Structural, PartialOrd, Ord, Debug)]
pub struct Metric {
    hop_count: usize,
}

impl View for Metric {
    type V = nat;

    closed spec fn view(&self) -> nat {
        self.hop_count as nat
    }
}

impl Default for Metric {
    /// The default metric is infinity.
    fn default() -> (r: Self)
        ensures
            r@ == infinity(),
    {
        Metric { hop_count: MAX_HOP_COUNT }
    }
}

impl Metric {
    #[verifier::type_invariant]
    spec fn in_range(self) -> bool {
        self.hop_count <= MAX_HOP_COUNT
    }

    /// The metric with the given hop count, or infinity where the count is
    /// beyond it.
    pub closed spec fn of(hops: nat) -> Metric {
        Metric {
            hop_count: if hops >= infinity() {
                MAX_HOP_COUNT
            } else {
                hops as usize
            },
        }
    }

    pub broadcast proof fn lemma_of(hops: nat)
        ensures
            (#[trigger] Metric::of(hops))@ == if hops >= infinity() {
                infinity()
            } else {
                hops
            },
    {
    }

    /// Metrics with the same hop count are the same metric.
    pub broadcast proof fn lemma_view_injective(a: Metric, b: Metric)
        requires
            #[trigger] a@ == #[trigger] b@,
        ensures
            a == b,
    {
    }

    pub fn new_zero() -> (r: Self)
        ensures
            r@ == 0,
    {
        Metric { hop_count: 0 }
    }

    pub fn one_hop() -> (r: Self)
        ensures
            r@ == 1,
    {
        Metric { hop_count: 1 }
    }

    pub fn infinity() -> (r: Self)
        ensures
            r@ == infinity(),
    {
        Metric { hop_count: MAX_HOP_COUNT }
    }

    pub fn is_infinity(&self) -> (r: bool)
        ensures
            r == (self@ >= infinity()),
            r == (self@ == infinity()),
    {
        proof {
            use_type_invariant(self);
        }
        self.hop_count >= MAX_HOP_COUNT
    }

    pub fn hop_count(&self) -> (r: usize)
        ensures
            r == self@,
            r <= MAX_HOP_COUNT,
    {
        proof {
            use_type_invariant(self);
        }
        self.hop_count
    }

    /// `self` is strictly smaller than `other`.
    pub fn is_less(&self, other: &Metric) -> (r: bool)
        ensures
            r == (self@ < other@),
    {
        self.hop_count < other.hop_count
    }
}

impl std::ops::Add<Metric> for Metric {
    type Output = Metric;

    fn add(self, rhs: Metric) -> (r: Metric)
        ensures
            r@ == metric_add(self@, rhs@),
    {
        proof {
            use_type_invariant(self);
            use_type_invariant(rhs);
        }
        if self.hop_count == MAX_HOP_COUNT || rhs.hop_count == MAX_HOP_COUNT {
            Metric { hop_count: MAX_HOP_COUNT }
        } else if self.hop_count + rhs.hop_count >= MAX_HOP_COUNT {
            Metric { hop_count: MAX_HOP_COUNT }
        } else {
            Metric { hop_count: self.hop_count + rhs.hop_count }
        }
    }
}

impl AddSpecImpl<Metric> for Metric {
    open spec fn obeys_add_spec() -> bool {
        true
    }

    open spec fn add_req(self, rhs: Metric) -> bool {
        true
    }

    open spec fn add_spec(self, rhs: Metric) -> Metric {
        Metric::of(metric_add(self@, rhs@))
    }
}

/// Adding to infinity gives infinity, a sum never exceeds infinity, and
/// one hop on top of the last finite hop count is infinity.
pub proof fn lemma_metric_saturates(a: nat, b: nat)
    ensures
        metric_add(infinity(), b) == infinity(),
        metric_add(a, infinity()) == infinity(),
        metric_add(a, b) <= infinity(),
        metric_add((infinity() - 1) as nat, 1) == infinity(),
        a + b < infinity() ==> metric_add(a, b) == a + b,
{
}

} // verus!
