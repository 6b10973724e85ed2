//! Unique identifiers for the processes of a protocol, and two ways of
//! handing them out: counting up, and drawing at random.

use crate::util::random::random_below;
use std::collections::HashSet;
use vstd::prelude::*;
use vstd::std_specs::convert::FromSpecImpl;

verus! {

broadcast use vstd::std_specs::hash::group_hash_axioms;

#[derive(Debug, PartialEq, Eq, Structural, PartialOrd, Copy, Clone, Hash)]
pub struct UniqueId(pub usize);

impl Default for UniqueId {
    fn default() -> (r: Self)
        ensures
            r.0 == 0,
    {
        UniqueId(0)
    }
}

impl From<usize> for UniqueId {
    fn from(uid: usize) -> (r: Self) {
        UniqueId(uid)
    }
}

impl FromSpecImpl<usize> for UniqueId {
    open spec fn obeys_from_spec() -> bool {
        true
    }

    open spec fn from_spec(uid: usize) -> Self {
        UniqueId(uid)
    }
}

/// Hands out identifiers in increasing order.
#[derive(Debug)]
pub struct UIdGenSequential {
    next_uid: usize,
}

impl Default for UIdGenSequential {
    fn default() -> (r: Self)
        ensures
            r.next() == 0,
    {
        UIdGenSequential { next_uid: 0 }
    }
}

impl UIdGenSequential {
    /// The identifier that is handed out next.
    pub closed spec fn next(&self) -> nat {
        self.next_uid as nat
    }

    pub fn new(initial_uid: usize) -> (r: Self)
        ensures
            r.next() == initial_uid,
    {
        UIdGenSequential { next_uid: initial_uid }
    }

    /// Whether `generate_uid` can be called: the identifiers have not run
    /// out.
    pub fn has_next(&self) -> (r: bool)
        ensures
            r == (self.next() < usize::MAX),
    {
        self.next_uid < usize::MAX
    }

    pub fn generate_uid(&mut self) -> (uid: UniqueId)
        requires
            old(self).next() < usize::MAX,
        ensures
            uid.0 == old(self).next(),
            final(self).next() == old(self).next() + 1,
    {
        let uid = UniqueId(self.next_uid);
        self.next_uid += 1;
        uid
    }
}

/// The values below `n`.
pub open spec fn below(n: nat) -> Set<usize> {
    Set::new(|x: usize| x < n)
}

/// There are `n` values below `n`.
pub proof fn lemma_below_len(n: nat)
    requires
        n <= usize::MAX + 1,
    ensures
        below(n).finite(),
        below(n).len() == n,
    decreases n,
{
    if n == 0 {
        assert(below(0) =~= Set::<usize>::empty());
    } else {
        lemma_below_len((n - 1) as nat);
        assert(below(n) =~= below((n - 1) as nat).insert((n - 1) as usize));
    }
}

/// How often `generate_uid` draws before it takes the next free value
/// after its last draw.
pub const DRAW_LIMIT: usize = 64;

/// Hands out identifiers below `max`, drawn at random, none of them twice.
#[derive(Debug)]
pub struct UIdGenRandom {
    max: usize,
    generated_ids: HashSet<usize>,
}

impl Default for UIdGenRandom {
    fn default() -> (r: Self)
        ensures
            r.wf(),
            r.max() == usize::MAX,
            r.generated() == Set::<usize>::empty(),
    {
        UIdGenRandom { max: usize::MAX, generated_ids: HashSet::new() }
    }
}

impl UIdGenRandom {
    /// The bound below which all identifiers lie.
    pub closed spec fn max(&self) -> nat {
        self.max as nat
    }

    /// The identifiers handed out so far.
    pub closed spec fn generated(&self) -> Set<usize> {
        self.generated_ids@
    }

    /// Only identifiers below `max` have been handed out.
    pub open spec fn wf(&self) -> bool {
        &&& self.generated().finite()
        &&& self.generated().subset_of(below(self.max()))
    }

    pub fn new(max: usize) -> (r: Self)
        ensures
            r.wf(),
            r.max() == max,
            r.generated() == Set::<usize>::empty(),
    {
        UIdGenRandom { max, generated_ids: HashSet::new() }
    }

    /// Whether `generate_uid` can be called: not every identifier below
    /// `max` has been handed out.
    pub fn has_unused(&self) -> (r: bool)
        requires
            self.wf(),
        ensures
            r == (self.generated().len() < self.max()),
    {
        self.generated_ids.len() < self.max
    }

    /// The first value at or after `drawn`, going round from `max` to 0,
    /// that has not been handed out.
    pub fn pick_unused(&self, drawn: usize) -> (r: usize)
        requires
            self.wf(),
            self.generated().len() < self.max(),
            drawn < self.max(),
        ensures
            r < self.max(),
            !self.generated().contains(r),
            drawn <= r ==> forall|x: usize| drawn <= x < r ==> self.generated().contains(x),
            r < drawn ==> forall|x: usize|
                (drawn <= x < self.max() || x < r) ==> self.generated().contains(x),
    {
        let mut c: usize = drawn;
        while c < self.max
            invariant
                drawn <= c <= self.max,
                forall|x: usize| drawn <= x < c ==> self.generated_ids@.contains(x),
            decreases self.max - c,
        {
            if !self.generated_ids.contains(&c) {
                return c;
            }
            c += 1;
        }
        c = 0;
        while c < drawn
            invariant
                c <= drawn < self.max,
                forall|x: usize| drawn <= x < self.max ==> self.generated_ids@.contains(x),
                forall|x: usize| x < c ==> self.generated_ids@.contains(x),
            decreases drawn - c,
        {
            if !self.generated_ids.contains(&c) {
                return c;
            }
            c += 1;
        }
        proof {
            // every value below `max` has been handed out: more than there are
            lemma_below_len(self.max());
            assert(below(self.max()).subset_of(self.generated()));
            vstd::set_lib::lemma_len_subset(below(self.max()), self.generated());
        }
        drawn
    }

    /// An identifier below `max` that has not been handed out before. It
    /// is drawn at random; should `DRAW_LIMIT` draws in a row all have been
    /// handed out already, the next free value after the last draw is
    /// taken. Not every identifier below `max` may have been handed out.
    pub fn generate_uid(&mut self) -> (uid: UniqueId)
        requires
            old(self).wf(),
            old(self).generated().len() < old(self).max(),
        ensures
            final(self).wf(),
            final(self).max() == old(self).max(),
            uid.0 < old(self).max(),
            !old(self).generated().contains(uid.0),
            final(self).generated() == old(self).generated().insert(uid.0),
    {
        let mut uid_val = random_below(self.max);
        let mut draws: usize = 1;
        while draws < DRAW_LIMIT && self.generated_ids.contains(&uid_val)
            invariant
                *self == *old(self),
                uid_val < self.max,
                draws <= DRAW_LIMIT,
            decreases DRAW_LIMIT - draws,
        {
            uid_val = random_below(self.max);
            draws += 1;
        }
        let uid_val = self.pick_unused(uid_val);
        self.generated_ids.insert(uid_val);
        UniqueId(uid_val)
    }
}

} // verus!
