//! A two-tier object store: a coordinator that tracks which storage node
//! holds which named object, and the storage nodes' local tables.

pub mod chunk;
pub mod endpoint;
pub mod master;
pub mod registry;
pub mod store;
