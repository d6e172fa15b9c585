//! The table of one storage node as a mathematical value.
//!
//! [`Store`] is what a [`crate::chunk::ChunkServer`] stands for in
//! contracts.

use vstd::prelude::*;
use crate::registry::{Registry, Update};

verus! {

/// The objects that one storage node holds: content by name.
pub struct Store {
    pub objects: Map<Seq<char>, Seq<char>>,
}

/// One call of `set`: `name` is given the content, or is deleted where
/// there is none.
pub struct Write {
    pub name: Seq<char>,
    pub content: Option<Seq<char>>,
}

/// What the storage node `sender` owes the coordinator after it has served
/// a `set` of `name`: a placement report after a write, a removal after a
/// delete.
pub open spec fn notice_for(sender: int, name: Seq<char>, content: Option<Seq<char>>) -> Update {
    match content {
        Some(_) => Update::Insert { sender, name },
        None => Update::Remove { name },
    }
}

impl Store {
    /// The table of a storage node that has just started.
    pub open spec fn empty() -> Store {
        Store { objects: Map::empty() }
    }

    /// The content stored under `name`, if there is any.
    pub open spec fn get(self, name: Seq<char>) -> Option<Seq<char>> {
        if self.objects.contains_key(name) {
            Some(self.objects[name])
        } else {
            None
        }
    }

    /// What a `set` of `name` hands back: the content that `name` holds
    /// when the `set` comes.
    pub open spec fn previous(self, name: Seq<char>) -> Option<Seq<char>> {
        self.get(name)
    }

    /// The table after a `set`: `name` holds the content, or nothing where
    /// the content is absent.
    pub open spec fn set(self, name: Seq<char>, content: Option<Seq<char>>) -> Store {
        match content {
            Some(data) => Store { objects: self.objects.insert(name, data) },
            None => Store { objects: self.objects.remove(name) },
        }
    }

    /// The table after a run of writes, the first of them applied first.
    pub open spec fn set_all(self, writes: Seq<Write>) -> Store
        decreases writes.len(),
    {
        if writes.len() == 0 {
            self
        } else {
            self.set_all(writes.drop_last()).set(writes.last().name, writes.last().content)
        }
    }

    /// What was set is what is found: after a `set` of `name`, a `get` of
    /// `name` gives the content that was written, and nothing after a
    /// delete. Other names are as they were.
    pub proof fn lemma_get_after_set(
        self,
        name: Seq<char>,
        content: Option<Seq<char>>,
        other: Seq<char>,
    )
        ensures
            self.set(name, content).get(name) == content,
            other != name ==> self.set(name, content).get(other) == self.get(other),
    {
    }

    /// The `set` that directly follows a write of `first` under the same
    /// name hands back `first`, whatever it writes itself; the one that
    /// follows a delete, or comes first in an empty table, hands back
    /// nothing.
    pub proof fn lemma_previous_content(self, name: Seq<char>, first: Seq<char>)
        ensures
            self.set(name, Some(first)).previous(name) == Some(first),
            self.set(name, None).previous(name) == None::<Seq<char>>,
            Store::empty().previous(name) == None::<Seq<char>>,
    {
    }

    /// A name that no write has named yet holds nothing: in a table that
    /// started empty, the first `set` of `name` hands back nothing, however
    /// many other names were written before.
    pub proof fn lemma_first_set_finds_nothing(writes: Seq<Write>, name: Seq<char>)
        requires
            forall|i: int| 0 <= i < writes.len() ==> (#[trigger] writes[i]).name != name,
        ensures
            Store::empty().set_all(writes).previous(name) == None::<Seq<char>>,
        decreases writes.len(),
    {
        if writes.len() > 0 {
            let earlier = writes.drop_last();
            assert forall|i: int| 0 <= i < earlier.len() implies
                (#[trigger] earlier[i]).name != name by {
                assert(earlier[i] == writes[i]);
            }
            Store::lemma_first_set_finds_nothing(earlier, name);
            assert(writes[writes.len() - 1].name != name);
        }
    }

    /// A `set` whose notice has reached the coordinator leaves table and
    /// registry in agreement about the name: the registry records a holder
    /// for it exactly if the table holds it, and after a write by a
    /// registered node that holder is the node itself.
    pub proof fn lemma_notice_synchronizes(
        self,
        registry: Registry,
        sender: int,
        name: Seq<char>,
        content: Option<Seq<char>>,
    )
        requires
            registry.knows(sender),
        ensures
            registry.apply(notice_for(sender, name, content)).locations.contains_key(name)
                == self.set(name, content).objects.contains_key(name),
            content is Some ==> registry.apply(notice_for(sender, name, content)).locations[name]
                == registry.nodes[sender],
    {
    }
}

} // verus!
