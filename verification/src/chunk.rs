//! The storage node: a table of objects, and what the node owes the
//! coordinator for each change it serves.

use vstd::prelude::*;
use vstd::hash_map::StringHashMap;
use crate::registry::Update;
use crate::store::{notice_for, Store};

verus! {

/// A message from a storage node to the coordinator.
#[derive(Debug, PartialEq, Eq)]
pub enum Notice {
    /// The node `sender` holds `url` now.
    Insert { sender: u64, url: String },
    /// `url` was deleted.
    Remove { url: String },
}

impl View for Notice {
    type V = Update;

    open spec fn view(&self) -> Update {
        match self {
            Notice::Insert { sender, url } => Update::Insert { sender: *sender as int, name: url@ },
            Notice::Remove { url } => Update::Remove { name: url@ },
        }
    }
}

/// A `set` that the table has taken and the coordinator has not heard of
/// yet.
#[derive(Debug, PartialEq, Eq)]
pub struct PendingSet {
    /// What the name held before.
    pub previous: Option<String>,
    /// What is to be sent to the coordinator.
    pub notice: Notice,
}

/// A `set` that changed the table while the coordinator could not be told:
/// table and registry disagree about the name until the notice gets
/// through.
#[derive(Debug, PartialEq, Eq)]
pub struct Unsynced {
    /// What the name held before.
    pub previous: Option<String>,
    /// What the coordinator has not received.
    pub notice: Notice,
}

impl PendingSet {
    /// Closes a `set` once it is known whether the notice reached the
    /// coordinator. If it did, the caller gets the previous content; if
    /// not, the notice comes back with it, to be sent again.
    pub fn complete(self, delivered: bool) -> (outcome: Result<Option<String>, Unsynced>)
        ensures
            delivered ==> outcome == Ok::<Option<String>, Unsynced>(self.previous),
            !delivered ==> outcome == Err::<Option<String>, Unsynced>(
                (Unsynced { previous: self.previous, notice: self.notice }),
            ),
    {
        if delivered {
            Ok(self.previous)
        } else {
            Err(Unsynced { previous: self.previous, notice: self.notice })
        }
    }
}

/// The state of one storage node.
///
/// It is a plain owned value: whoever serves it to concurrent callers puts
/// it behind a reader/writer lock, takes the lock for reading around
/// [`ChunkServer::get`] and for writing around [`ChunkServer::set`].
pub struct ChunkServer {
    // table of object contents by name
    storage: StringHashMap<String>,
    // the identity that the coordinator gave this node
    id: u64,
}

impl View for ChunkServer {
    type V = Store;

    closed spec fn view(&self) -> Store {
        Store { objects: self.storage@.map_values(|data: String| data@) }
    }
}

impl ChunkServer {
    /// The identity under which this node reports to the coordinator.
    pub closed spec fn id(&self) -> u64 {
        self.id
    }

    /// An empty storage node that was registered as `my_id`.
    pub fn new(my_id: u64) -> (server: Self)
        ensures
            server@ == Store::empty(),
            server.id() == my_id,
    {
        let server = ChunkServer { storage: StringHashMap::new(), id: my_id };
        assert(server@.objects =~= Map::empty());
        server
    }

    /// The content stored under `url`, if there is any.
    pub fn get(&self, url: &str) -> (data: Option<String>)
        ensures
            data.deep_view() == self@.get(url@),
    {
        match self.storage.get(url) {
            Some(data) => Some(data.clone()),
            None => None,
        }
    }

    /// Stores `chunk` under `url`, or deletes `url` where `chunk` is
    /// absent, and hands back the previous content together with the
    /// notice that the coordinator is owed. The table changes at once; the
    /// `set` is complete when the notice was sent, see
    /// [`PendingSet::complete`].
    pub fn set(&mut self, url: String, chunk: Option<String>) -> (pending: PendingSet)
        ensures
            final(self)@ == old(self)@.set(url@, chunk.deep_view()),
            final(self).id() == old(self).id(),
            pending.previous.deep_view() == old(self)@.previous(url@),
            pending.notice@ == notice_for(old(self).id() as int, url@, chunk.deep_view()),
    {
        let previous = self.get(url.as_str());
        match chunk {
            Some(data) => {
                self.storage.insert(url.clone(), data);
                assert(self@.objects =~= old(self)@.objects.insert(url@, data@));
                PendingSet { previous, notice: Notice::Insert { sender: self.id, url } }
            },
            None => {
                self.storage.remove(url.as_str());
                assert(self@.objects =~= old(self)@.objects.remove(url@));
                PendingSet { previous, notice: Notice::Remove { url } }
            },
        }
    }
}

} // verus!
