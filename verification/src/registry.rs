//! The set of peers that currently have a session.
//!
//! The registry is what keeps two sessions to one address from coexisting: a
//! session may start only after its address went in, and the address comes out
//! when the session ends. The registry itself is a plain value; whoever shares
//! it between tasks puts it behind a lock and holds that lock for one call.

use vstd::prelude::*;

use crate::address::PeerAddr;

verus! {

/// The addresses of the connected peers, each held once.
pub struct ConnectionRegistry {
    peers: Vec<PeerAddr>,
}

impl View for ConnectionRegistry {
    type V = Set<PeerAddr>;

    closed spec fn view(&self) -> Set<PeerAddr> {
        self.peers@.to_set()
    }
}

impl ConnectionRegistry {
    /// No address is held twice. Every registry that this module hands out is
    /// well formed, and every operation keeps it so.
    pub closed spec fn wf(&self) -> bool {
        self.peers@.no_duplicates()
    }

    /// A registry with no peer in it.
    pub fn new() -> (registry: ConnectionRegistry)
        ensures
            registry.wf(),
            registry@ == Set::<PeerAddr>::empty(),
    {
        let registry = ConnectionRegistry { peers: Vec::new() };
        assert(registry.peers@.to_set() =~= Set::<PeerAddr>::empty());
        registry
    }

    /// Where `address` is held, if it is.
    fn position(&self, address: PeerAddr) -> (found: Option<usize>)
        ensures
            match found {
                Some(i) => i < self.peers@.len() && self.peers@[i as int] == address,
                None => !self.peers@.contains(address),
            },
    {
        let mut i: usize = 0;
        while i < self.peers.len()
            invariant
                i <= self.peers@.len(),
                forall|k: int| 0 <= k < i ==> self.peers@[k] != address,
            decreases self.peers@.len() - i,
        {
            if self.peers[i] == address {
                return Some(i);
            }
            i = i + 1;
        }
        None
    }

    /// Whether `address` has a session.
    pub fn contains(&self, address: PeerAddr) -> (held: bool)
        ensures
            held == self@.contains(address),
    {
        self.position(address).is_some()
    }

    /// Adds `address` if it is absent, and says whether it was added. Of any
    /// number of attempts on one address, only the first that finds it absent
    /// succeeds.
    pub fn try_insert(&mut self, address: PeerAddr) -> (added: bool)
        requires
            old(self).wf(),
        ensures
            final(self).wf(),
            added == !old(self)@.contains(address),
            final(self)@ == old(self)@.insert(address),
    {
        match self.position(address) {
            Some(_) => {
                assert(self@.insert(address) =~= self@);
                false
            },
            None => {
                proof {
                    self.peers@.lemma_push_to_set_commute(address);
                }
                self.peers.push(address);
                true
            },
        }
    }

    /// Removes `address`, whether or not it was held.
    pub fn remove(&mut self, address: PeerAddr)
        requires
            old(self).wf(),
        ensures
            final(self).wf(),
            final(self)@ == old(self)@.remove(address),
    {
        match self.position(address) {
            Some(i) => {
                let ghost before = self.peers@;
                self.peers.remove(i);
                assert(self.peers@.to_set() =~= before.to_set().remove(address)) by {
                    let after = before.remove(i as int);
                    assert forall|a: PeerAddr| after.contains(a) <==> (before.contains(a) && a
                        != address) by {
                        if after.contains(a) {
                            let k = choose|k: int| 0 <= k < after.len() && after[k] == a;
                            if k < i {
                                assert(before[k] == a);
                            } else {
                                assert(before[k + 1] == a);
                            }
                        }
                        if before.contains(a) && a != address {
                            let k = choose|k: int| 0 <= k < before.len() && before[k] == a;
                            if k < i {
                                assert(after[k] == a);
                            } else {
                                assert(after[k - 1] == a);
                            }
                        }
                    }
                }
            },
            None => {
                assert(self@.remove(address) =~= self@);
            },
        }
    }

    /// The number of connected peers.
    pub fn len(&self) -> (count: usize)
        requires
            self.wf(),
        ensures
            self@.finite(),
            count == self@.len(),
    {
        proof {
            self.peers@.unique_seq_to_set();
            vstd::seq_lib::seq_to_set_is_finite(self.peers@);
        }
        self.peers.len()
    }

    /// Whether no peer is connected.
    pub fn is_empty(&self) -> (empty: bool)
        ensures
            empty == (self@ == Set::<PeerAddr>::empty()),
    {
        proof {
            if self.peers@.len() > 0 {
                assert(self.peers@.contains(self.peers@[0]));
                assert(self@.contains(self.peers@[0]));
            } else {
                assert(self@ =~= Set::<PeerAddr>::empty());
            }
        }
        self.peers.len() == 0
    }
}

} // verus!
