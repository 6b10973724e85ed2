//! A router's configuration: the interfaces to which a host is attached,
//! each with the address that the router advertises for it. Every other
//! interface takes part in the routing protocol.

use crate::basicnet::types::InterfaceId;
use crate::simpledv::addr::HostAddr;
use vstd::prelude::*;

verus! {

#[derive(Debug, Clone, Copy, PartialEq, Eq, Structural)]
pub struct InterfaceConfig {
    pub if_id: InterfaceId,
    pub advertise_addr: HostAddr,
}

#[derive(Debug)]
pub struct Config {
    interfaces: Vec<InterfaceConfig>,
}

/// The position of the first entry for `if_id`, if there is one.
pub open spec fn first_config(cfg: Seq<InterfaceConfig>, if_id: InterfaceId) -> Option<int>
    decreases cfg.len(),
{
    if cfg.len() == 0 {
        None
    } else if cfg[0].if_id == if_id {
        Some(0)
    } else {
        match first_config(cfg.skip(1), if_id) {
            Some(k) => Some(k + 1),
            None => None,
        }
    }
}

/// `first_config` finds the first entry with the given interface, and
/// finds one exactly when there is one.
pub proof fn lemma_first_config(cfg: Seq<InterfaceConfig>, if_id: InterfaceId)
    ensures
        match first_config(cfg, if_id) {
            Some(k) => 0 <= k < cfg.len() && cfg[k].if_id == if_id && forall|j: int|
                0 <= j < k ==> (#[trigger] cfg[j]).if_id != if_id,
            None => forall|j: int| 0 <= j < cfg.len() ==> (#[trigger] cfg[j]).if_id != if_id,
        },
    decreases cfg.len(),
{
    if cfg.len() > 0 && cfg[0].if_id != if_id {
        let rest = cfg.skip(1);
        lemma_first_config(rest, if_id);
        match first_config(rest, if_id) {
            Some(k) => {
                assert forall|j: int| 0 <= j < k + 1 implies (#[trigger] cfg[j]).if_id != if_id by {
                    if j > 0 {
                        assert(cfg[j] == rest[j - 1]);
                    }
                }
            },
            None => {
                assert forall|j: int| 0 <= j < cfg.len() implies (#[trigger] cfg[j]).if_id
                    != if_id by {
                    if j > 0 {
                        assert(cfg[j] == rest[j - 1]);
                    }
                }
            },
        }
    }
}

impl View for Config {
    type V = Seq<InterfaceConfig>;

    closed spec fn view(&self) -> Seq<InterfaceConfig> {
        self.interfaces@
    }
}

impl Default for Config {
    fn default() -> (r: Self)
        ensures
            r@.len() == 0,
    {
        Config { interfaces: Vec::new() }
    }
}

impl Clone for Config {
    fn clone(&self) -> (r: Self)
        ensures
            r@ == self@,
    {
        let mut interfaces: Vec<InterfaceConfig> = Vec::new();
        let mut i: usize = 0;
        while i < self.interfaces.len()
            invariant
                i <= self.interfaces@.len(),
                interfaces@ == self.interfaces@.take(i as int),
            decreases self.interfaces@.len() - i,
        {
            interfaces.push(self.interfaces[i]);
            proof {
                assert(self.interfaces@.take(i + 1) =~= self.interfaces@.take(i as int).push(
                    self.interfaces@[i as int],
                ));
            }
            i += 1;
        }
        proof {
            assert(self.interfaces@.take(i as int) =~= self.interfaces@);
        }
        Config { interfaces }
    }
}

impl Config {
    /// Whether a host is attached to `if_id`.
    pub open spec fn has(&self, if_id: InterfaceId) -> bool {
        first_config(self@, if_id) is Some
    }

    /// The address advertised for `if_id`.
    pub open spec fn addr_of(&self, if_id: InterfaceId) -> HostAddr
        recommends
            self.has(if_id),
    {
        self@[first_config(self@, if_id).unwrap()].advertise_addr
    }

    pub fn new() -> (r: Self)
        ensures
            r@.len() == 0,
    {
        Config { interfaces: Vec::new() }
    }

    pub fn is_empty(&self) -> (r: bool)
        ensures
            r == (self@.len() == 0),
    {
        self.interfaces.len() == 0
    }

    pub fn add_interface(&mut self, if_id: InterfaceId, addr: HostAddr)
        ensures
            final(self)@ == old(self)@.push(InterfaceConfig { if_id, advertise_addr: addr }),
    {
        self.interfaces.push(InterfaceConfig { if_id, advertise_addr: addr })
    }

    fn find(&self, if_id: InterfaceId) -> (r: Option<usize>)
        ensures
            match r {
                Some(k) => first_config(self@, if_id) == Some(k as int) && k < self@.len(),
                None => first_config(self@, if_id) is None,
            },
    {
        let mut i: usize = 0;
        while i < self.interfaces.len()
            invariant
                i <= self.interfaces@.len(),
                forall|j: int| 0 <= j < i ==> (#[trigger] self.interfaces@[j]).if_id != if_id,
            decreases self.interfaces@.len() - i,
        {
            if self.interfaces[i].if_id == if_id {
                proof {
                    lemma_first_config(self@, if_id);
                }
                return Some(i);
            }
            i += 1;
        }
        proof {
            lemma_first_config(self@, if_id);
        }
        None
    }

    pub fn has_interface(&self, if_id: InterfaceId) -> (r: bool)
        ensures
            r == self.has(if_id),
    {
        self.find(if_id).is_some()
    }

    /// The configuration of `if_id`, which must be configured.
    pub fn get_config(&self, if_id: InterfaceId) -> (r: &InterfaceConfig)
        requires
            self.has(if_id),
        ensures
            r.if_id == if_id,
            r.advertise_addr == self.addr_of(if_id),
    {
        proof {
            lemma_first_config(self@, if_id);
        }
        let k = self.find(if_id).unwrap();
        &self.interfaces[k]
    }
}

} // verus!
