//! The coordinator: which storage nodes exist, and which of them holds
//! which object.

use vstd::prelude::*;
use vstd::hash_map::StringHashMap;
use rand::seq::SliceRandom;
use crate::endpoint::Endpoint;
use crate::registry::{NoCapacity, Registry, Update};

verus! {

/// The state of the coordinator.
///
/// It is a plain owned value: whoever serves it to concurrent callers puts
/// it behind a reader/writer lock, takes the lock for reading around
/// [`GfsMaster::lookup`] and for writing around the other operations.
pub struct GfsMaster {
    // list of storage nodes, indexed by their identity
    chunk_servers: Vec<Endpoint>,
    // for each object name the endpoint of the node that holds it
    registry: StringHashMap<Endpoint>,
}

impl View for GfsMaster {
    type V = Registry;

    closed spec fn view(&self) -> Registry {
        Registry { nodes: self.chunk_servers@, locations: self.registry@ }
    }
}

/// Draws one of `nodes` with `rand::seq::SliceRandom::choose`, fed by the
/// generator of `rand::thread_rng`.
///
/// Trusted: `choose` gives `None` for an empty slice and otherwise a
/// reference to the element at an index that it draws below the length.
/// Which element that is differs from call to call, so nothing more is
/// said of it. The generator panics where the system cannot seed it,
/// whatever `nodes` holds.
#[verifier::external_body]
fn choose_node(nodes: &Vec<Endpoint>) -> (pick: Option<Endpoint>)
    ensures
        nodes@.len() == 0 ==> pick is None,
        nodes@.len() > 0 ==> pick is Some && nodes@.contains(pick->Some_0),
{
    nodes.choose(&mut rand::thread_rng()).copied()
}

impl GfsMaster {
    /// A coordinator that knows no storage node and no object.
    pub fn new() -> (master: Self)
        ensures
            master@ == Registry::empty(),
            master@.wf(),
    {
        GfsMaster { chunk_servers: Vec::new(), registry: StringHashMap::new() }
    }

    /// Registers a storage node and returns its identity: the number of
    /// registrations before this one. The same endpoint registered again
    /// gets a new identity.
    pub fn register(&mut self, socket_addr: Endpoint) -> (id: u64)
        ensures
            final(self)@ == old(self)@.register(socket_addr),
            id == old(self)@.next_identity(),
            old(self)@.wf() ==> final(self)@.wf(),
    {
        proof {
            old(self)@.lemma_update_keeps_wf(Update::Register { endpoint: socket_addr });
        }
        let id: u64 = self.chunk_servers.len() as u64;
        self.chunk_servers.push(socket_addr);
        id
    }

    /// Records that the storage node `sender` holds `url`, in place of
    /// whatever was recorded for `url` before. A `sender` that no
    /// registration has handed out changes nothing; the result tells the
    /// two apart.
    pub fn insert(&mut self, sender: u64, url: String) -> (recorded: bool)
        ensures
            final(self)@ == old(self)@.insert(sender as int, url@),
            recorded == old(self)@.knows(sender as int),
            !recorded ==> final(self)@ == old(self)@,
            old(self)@.wf() ==> final(self)@.wf(),
    {
        proof {
            old(self)@.lemma_update_keeps_wf(Update::Insert { sender: sender as int, name: url@ });
        }
        if sender < self.chunk_servers.len() as u64 {
            let address = self.chunk_servers[sender as usize];
            self.registry.insert(url, address);
            true
        } else {
            false
        }
    }

    /// Forgets the holder of `url`. The result says whether one was
    /// recorded; if none was, nothing changes.
    pub fn remove(&mut self, url: &str) -> (removed: bool)
        ensures
            final(self)@ == old(self)@.remove(url@),
            removed == old(self)@.locations.contains_key(url@),
            !removed ==> final(self)@ == old(self)@,
            old(self)@.wf() ==> final(self)@.wf(),
    {
        proof {
            old(self)@.lemma_update_keeps_wf(Update::Remove { name: url@ });
            old(self)@.lemma_remove_of_absent_name(url@);
        }
        let removed = self.registry.contains_key(url);
        self.registry.remove(url);
        removed
    }

    /// Answers a lookup of `url` for which the candidate `pick` was drawn:
    /// the recorded holder if there is one, else `pick`, else the failure.
    /// The candidate is taken as it comes; [`GfsMaster::lookup`] draws it
    /// from the registered nodes.
    pub fn resolve(&self, url: &str, pick: Option<Endpoint>) -> (answer: Result<
        Endpoint,
        NoCapacity,
    >)
        ensures
            answer == self@.resolve(url@, pick),
    {
        match self.registry.get(url) {
            Some(address) => Ok(*address),
            None => match pick {
                Some(endpoint) => Ok(endpoint),
                None => Err(NoCapacity),
            },
        }
    }

    /// Finds the storage node to talk to about `url`: the recorded holder,
    /// or else a registered node drawn at random, on which a new object is
    /// to be placed. The draw is not recorded: a later lookup may give
    /// another node until a write was reported with
    /// [`GfsMaster::insert`]. With no holder and no node at all the lookup
    /// fails.
    pub fn lookup(&self, url: &str) -> (answer: Result<Endpoint, NoCapacity>)
        ensures
            self@.admits(url@, answer),
            self@.wf() && answer is Ok ==> self@.nodes.contains(answer->Ok_0),
    {
        if self.registry.contains_key(url) {
            self.resolve(url, None)
        } else {
            let pick = choose_node(&self.chunk_servers);
            self.resolve(url, pick)
        }
    }
}

impl Default for GfsMaster {
    fn default() -> (master: Self)
        ensures
            master@ == Registry::empty(),
            master@.wf(),
    {
        GfsMaster::new()
    }
}

} // verus!
