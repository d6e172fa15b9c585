//! The coordinator's bookkeeping as a mathematical value.
//!
//! [`Registry`] is what a [`crate::master::GfsMaster`] stands for in
//! contracts. The operations are spec functions on it, and the proof
//! functions at the end say what holds of them across several calls.

use vstd::prelude::*;
use crate::endpoint::Endpoint;

verus! {

/// A lookup found no recorded holder and no storage node to place the
/// object on.
#[derive(Clone, Copy, Debug, PartialEq, Eq, Structural)]
pub struct NoCapacity;

/// Membership and placement as the coordinator knows them.
pub struct Registry {
    /// The registered endpoints, in the order of their registration. The
    /// identity of a storage node is its position here.
    pub nodes: Seq<Endpoint>,
    /// For each object that was written and not deleted since, the endpoint
    /// that holds it.
    pub locations: Map<Seq<char>, Endpoint>,
}

/// One change to a [`Registry`].
pub enum Update {
    /// A storage node announces its endpoint.
    Register { endpoint: Endpoint },
    /// The storage node `sender` reports that it now holds `name`.
    Insert { sender: int, name: Seq<char> },
    /// A storage node reports that `name` was deleted.
    Remove { name: Seq<char> },
}

impl Update {
    /// Whether this update is a placement report or a removal for `name`.
    pub open spec fn touches(self, name: Seq<char>) -> bool {
        match self {
            Update::Register { .. } => false,
            Update::Insert { name: n, .. } => n == name,
            Update::Remove { name: n } => n == name,
        }
    }
}

impl Registry {
    /// The registry of a coordinator that has just started.
    pub open spec fn empty() -> Registry {
        Registry { nodes: Seq::empty(), locations: Map::empty() }
    }

    /// Every recorded holder is a registered endpoint.
    pub open spec fn wf(self) -> bool {
        forall|name: Seq<char>|
            #[trigger] self.locations.contains_key(name)
                ==> self.nodes.contains(self.locations[name])
    }

    /// Whether `identity` was handed out by a registration.
    pub open spec fn knows(self, identity: int) -> bool {
        0 <= identity < self.nodes.len()
    }

    /// The identity that the next registration receives.
    pub open spec fn next_identity(self) -> nat {
        self.nodes.len()
    }

    /// The registry after `endpoint` was registered.
    pub open spec fn register(self, endpoint: Endpoint) -> Registry {
        Registry { nodes: self.nodes.push(endpoint), locations: self.locations }
    }

    /// The registry after the node `sender` reported that it holds `name`.
    /// An unknown `sender` changes nothing.
    pub open spec fn insert(self, sender: int, name: Seq<char>) -> Registry {
        if self.knows(sender) {
            Registry { nodes: self.nodes, locations: self.locations.insert(name, self.nodes[sender]) }
        } else {
            self
        }
    }

    /// The registry after the placement of `name` was removed.
    pub open spec fn remove(self, name: Seq<char>) -> Registry {
        Registry { nodes: self.nodes, locations: self.locations.remove(name) }
    }

    /// Where `name` is to be found, given the endpoint `pick` that was drawn
    /// for the case that no holder is recorded.
    pub open spec fn resolve(self, name: Seq<char>, pick: Option<Endpoint>) -> Result<
        Endpoint,
        NoCapacity,
    > {
        if self.locations.contains_key(name) {
            Ok(self.locations[name])
        } else {
            match pick {
                Some(endpoint) => Ok(endpoint),
                None => Err(NoCapacity),
            }
        }
    }

    /// Whether `answer` is one that a lookup of `name` may give: the recorded
    /// holder if there is one, else any registered endpoint, and the failure
    /// only when nothing is registered.
    pub open spec fn admits(self, name: Seq<char>, answer: Result<Endpoint, NoCapacity>) -> bool {
        if self.locations.contains_key(name) {
            answer == Ok::<Endpoint, NoCapacity>(self.locations[name])
        } else if self.nodes.len() == 0 {
            answer == Err::<Endpoint, NoCapacity>(NoCapacity)
        } else {
            answer is Ok && self.nodes.contains(answer->Ok_0)
        }
    }

    /// The registry after one update.
    pub open spec fn apply(self, update: Update) -> Registry {
        match update {
            Update::Register { endpoint } => self.register(endpoint),
            Update::Insert { sender, name } => self.insert(sender, name),
            Update::Remove { name } => self.remove(name),
        }
    }

    /// The registry after a run of updates, the first of them applied first.
    pub open spec fn apply_all(self, updates: Seq<Update>) -> Registry
        decreases updates.len(),
    {
        if updates.len() == 0 {
            self
        } else {
            self.apply_all(updates.drop_last()).apply(updates.last())
        }
    }

    /// The registry after a run of registrations, in the order of `endpoints`.
    pub open spec fn register_all(self, endpoints: Seq<Endpoint>) -> Registry
        decreases endpoints.len(),
    {
        if endpoints.len() == 0 {
            self
        } else {
            self.register_all(endpoints.drop_last()).register(endpoints.last())
        }
    }

    /// No update breaks [`Registry::wf`]: a holder is only ever recorded
    /// from the list of registered endpoints, and that list only grows.
    pub proof fn lemma_update_keeps_wf(self, update: Update)
        ensures
            self.wf() ==> self.apply(update).wf(),
    {
        if self.wf() {
            let after = self.apply(update);
            assert forall|name: Seq<char>| #[trigger] after.locations.contains_key(name) implies
                after.nodes.contains(after.locations[name]) by {
                match update {
                    Update::Register { .. } => {
                        let i = self.nodes.index_of(self.locations[name]);
                        assert(after.nodes[i] == after.locations[name]);
                    },
                    Update::Insert { sender, name: written } => {
                        if self.knows(sender) && name == written {
                            assert(after.nodes[sender] == after.locations[name]);
                        } else {
                            assert(self.locations.contains_key(name));
                        }
                    },
                    Update::Remove { .. } => {
                        assert(self.locations.contains_key(name));
                    },
                }
            }
        }
    }

    /// Nor does a run of updates break it.
    pub proof fn lemma_updates_keep_wf(self, updates: Seq<Update>)
        ensures
            self.wf() ==> self.apply_all(updates).wf(),
        decreases updates.len(),
    {
        if updates.len() > 0 {
            self.lemma_updates_keep_wf(updates.drop_last());
            self.apply_all(updates.drop_last()).lemma_update_keeps_wf(updates.last());
        }
    }

    /// Whatever a lookup answers in a well-formed registry, short of the
    /// failure, is a registered endpoint.
    pub proof fn lemma_answer_is_registered(
        self,
        name: Seq<char>,
        answer: Result<Endpoint, NoCapacity>,
    )
        requires
            self.wf(),
            self.admits(name, answer),
            answer is Ok,
        ensures
            self.nodes.contains(answer->Ok_0),
    {
    }

    /// A lookup answers with a failure exactly when the name has no holder
    /// and no node is registered, and what it answers otherwise is the
    /// answer of [`Registry::resolve`] for some draw among the registered
    /// endpoints.
    pub proof fn lemma_admits_is_resolve_of_a_draw(
        self,
        name: Seq<char>,
        answer: Result<Endpoint, NoCapacity>,
    )
        requires
            self.admits(name, answer),
        ensures
            answer is Err <==> !self.locations.contains_key(name) && self.nodes.len() == 0,
            exists|pick: Option<Endpoint>|
                {
                    &&& pick is None <==> self.nodes.len() == 0
                    &&& pick is Some ==> self.nodes.contains(pick->Some_0)
                    &&& #[trigger] self.resolve(name, pick) == answer
                },
    {
        if self.nodes.len() == 0 {
            assert(self.resolve(name, None) == answer);
        } else if self.locations.contains_key(name) {
            let any = Some(self.nodes[0]);
            assert(self.resolve(name, any) == answer);
        } else {
            let drawn = Some(answer->Ok_0);
            assert(self.resolve(name, drawn) == answer);
        }
    }

    /// A run of registrations appends its endpoints to the list of nodes,
    /// in their order, and leaves the placements alone.
    pub proof fn lemma_register_all(self, endpoints: Seq<Endpoint>)
        ensures
            self.register_all(endpoints).nodes == self.nodes + endpoints,
            self.register_all(endpoints).locations == self.locations,
        decreases endpoints.len(),
    {
        if endpoints.len() == 0 {
            assert(self.nodes + endpoints =~= self.nodes);
        } else {
            self.lemma_register_all(endpoints.drop_last());
            let earlier = self.nodes + endpoints.drop_last();
            assert(self.nodes + endpoints =~= earlier.push(endpoints.last()));
        }
    }

    /// Identities follow the order of registration. Of a run of
    /// registrations, the one at position `i` receives `i` more than the
    /// number of nodes that were registered before the run, and from then
    /// on that identity stands for the endpoint it was given to. Endpoints
    /// that occur twice get two identities. From the empty registry the
    /// identity is `i` itself.
    pub proof fn lemma_registration_order(self, endpoints: Seq<Endpoint>, i: int)
        requires
            0 <= i < endpoints.len(),
        ensures
            self.register_all(endpoints.take(i)).next_identity() == self.nodes.len() + i,
            Registry::empty().register_all(endpoints.take(i)).next_identity() == i,
            self.register_all(endpoints).knows(self.nodes.len() + i),
            self.register_all(endpoints).nodes[self.nodes.len() + i] == endpoints[i],
    {
        self.lemma_register_all(endpoints.take(i));
        Registry::empty().lemma_register_all(endpoints.take(i));
        self.lemma_register_all(endpoints);
    }

    /// No update takes an identity back or gives it to another endpoint:
    /// the list of nodes only grows at its end.
    pub proof fn lemma_identities_are_stable(self, updates: Seq<Update>, identity: int)
        requires
            self.knows(identity),
        ensures
            self.apply_all(updates).knows(identity),
            self.apply_all(updates).nodes[identity] == self.nodes[identity],
        decreases updates.len(),
    {
        if updates.len() > 0 {
            self.lemma_identities_are_stable(updates.drop_last(), identity);
        }
    }

    /// Updates that do not touch `name` leave its placement as it was.
    pub proof fn lemma_untouched_placement(self, updates: Seq<Update>, name: Seq<char>)
        requires
            forall|i: int| 0 <= i < updates.len() ==> !(#[trigger] updates[i]).touches(name),
        ensures
            self.apply_all(updates).locations.contains_key(name)
                == self.locations.contains_key(name),
            self.locations.contains_key(name)
                ==> self.apply_all(updates).locations[name] == self.locations[name],
        decreases updates.len(),
    {
        if updates.len() > 0 {
            let earlier = updates.drop_last();
            assert forall|i: int| 0 <= i < earlier.len() implies
                !(#[trigger] earlier[i]).touches(name) by {
                assert(earlier[i] == updates[i]);
            }
            self.lemma_untouched_placement(earlier, name);
            assert(!updates[updates.len() - 1].touches(name));
        }
    }

    /// To remove the placement of a name that has none changes nothing.
    pub proof fn lemma_remove_of_absent_name(self, name: Seq<char>)
        ensures
            !self.locations.contains_key(name) ==> self.remove(name) == self,
    {
        if !self.locations.contains_key(name) {
            assert(self.locations.remove(name) =~= self.locations);
        }
    }

    /// The last report wins: of two reports for one name, the second by a
    /// known node, the registry keeps the second alone, as if the first
    /// had never come.
    pub proof fn lemma_last_report_wins(self, first: int, second: int, name: Seq<char>)
        requires
            self.knows(second),
        ensures
            self.insert(first, name).insert(second, name) == self.insert(second, name),
            self.insert(first, name).insert(second, name).locations[name] == self.nodes[second],
    {
        let both = self.insert(first, name).insert(second, name);
        assert(both.locations =~= self.insert(second, name).locations);
    }

    /// A recorded placement sticks. After the known node `sender` has
    /// reported `name`, and through any run of later updates of which none
    /// is a report or a removal for `name`, a lookup of `name` has one
    /// answer only, the endpoint of `sender`, whatever is drawn.
    pub proof fn lemma_placement_sticks(self, sender: int, name: Seq<char>, later: Seq<Update>)
        requires
            self.knows(sender),
            forall|i: int| 0 <= i < later.len() ==> !(#[trigger] later[i]).touches(name),
        ensures
            forall|pick: Option<Endpoint>|
                #[trigger] self.insert(sender, name).apply_all(later).resolve(name, pick)
                    == Ok::<Endpoint, NoCapacity>(self.nodes[sender]),
            forall|answer: Result<Endpoint, NoCapacity>|
                #[trigger] self.insert(sender, name).apply_all(later).admits(name, answer)
                    <==> answer == Ok::<Endpoint, NoCapacity>(self.nodes[sender]),
    {
        self.insert(sender, name).lemma_untouched_placement(later, name);
    }

    /// A removal ends that. Right after it the name has no holder, so a
    /// lookup is decided by the draw alone: it gives what was drawn, and
    /// every registered endpoint is a possible answer, the former holder no
    /// more than the others.
    pub proof fn lemma_removal_unsticks(self, name: Seq<char>)
        ensures
            !self.remove(name).locations.contains_key(name),
            forall|endpoint: Endpoint|
                #[trigger] self.remove(name).resolve(name, Some(endpoint))
                    == Ok::<Endpoint, NoCapacity>(endpoint),
            self.remove(name).resolve(name, None) == Err::<Endpoint, NoCapacity>(NoCapacity),
            forall|endpoint: Endpoint|
                #[trigger] self.nodes.contains(endpoint)
                    ==> self.remove(name).admits(name, Ok(endpoint)),
    {
    }
}

} // verus!
