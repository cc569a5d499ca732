//! Identifiers used across the bridge.

use vstd::prelude::*;

verus! {

/// Identity of one entity in the simulation world: a guest module instance,
/// a player, or a package. Stable and unique within the world for the
/// entity's lifetime.
#[derive(Clone, Copy, PartialEq, Eq, Structural, Hash, Debug)]
pub struct EntityId {
    /// Namespace the entity was allocated in.
    pub namespace: u8,
    /// Index within the namespace.
    pub id: u64,
    /// Generation counter distinguishing reuses of the same index.
    pub gen: u32,
}

impl EntityId {
    /// Builds an identifier from its three parts.
    pub fn new(namespace: u8, id: u64, gen: u32) -> (r: EntityId)
        ensures
            r.namespace == namespace,
            r.id == id,
            r.gen == gen,
    {
        EntityId { namespace, id, gen }
    }
}

} // verus!
