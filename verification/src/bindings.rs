//! Host-guest state: the per-bridge container owning the shared world
//! handle and the identity of the currently executing guest module.
//!
//! All world access is scoped: a read or write acquisition is released on
//! every exit path, never held past the call that acquired it. The handle
//! is vstd's verified reader/writer lock, so the exclusion discipline
//! (readers never block readers; a writer excludes everyone) is itself
//! proved rather than assumed, and no call here ever attempts a second
//! acquisition while holding one.

use vstd::prelude::*;
use vstd::rwlock::{ReadHandle, RwLock, RwLockPredicate};
use std::sync::Arc;

use crate::http::{deliver_http_response, FetchRequest, HttpResponse};
use crate::ids::EntityId;
use crate::input::RawInput;
use crate::router::route_send;
use crate::target::Target;
use crate::transport::TransportError;
use crate::world::World;

verus! {

/// What the shared handle guarantees of every world stored in it: between
/// any two scoped accesses, the world is well formed.
pub struct WorldPred;

impl RwLockPredicate<World> for WorldPred {
    open spec fn inv(self, w: World) -> bool {
        w@.wf()
    }
}

/// The shared world handle: the one mutable world behind a reader/writer
/// lock. Any number of read-scoped accesses coexist; a write-scoped access
/// excludes readers and writers both.
pub type SharedWorld = Arc<RwLock<World, WorldPred>>;

/// Puts a well-formed world behind a fresh shared handle.
pub fn new_shared_world(w: World) -> (s: SharedWorld)
    requires
        w@.wf(),
    ensures
        s.pred() == WorldPred,
{
    Arc::new(RwLock::new(w, Ghost(WorldPred)))
}

/// One bridge instance: the shared world handle, and the identity of the
/// guest module whose calls it serves.
pub struct Bindings {
    shared_state: SharedWorld,
    id: EntityId,
}

impl Bindings {
    /// The handle this instance carries is governed by the world
    /// predicate.
    pub closed spec fn wf(&self) -> bool {
        self.shared_state.pred() == WorldPred
    }

    /// The module this instance executes on behalf of.
    pub closed spec fn module_id(&self) -> EntityId {
        self.id
    }

    /// Builds the bridge state for one module over the shared world.
    pub fn new(shared_state: SharedWorld, id: EntityId) -> (b: Bindings)
        requires
            shared_state.pred() == WorldPred,
        ensures
            b.wf(),
            b.module_id() == id,
    {
        Bindings { shared_state, id }
    }

    /// A read-scoped view of the world: any number may be held at once.
    /// The caller releases it with [`ReadHandle::release_read`]; whatever
    /// it reads through the handle is a well-formed world.
    pub fn world(&self) -> (handle: ReadHandle<'_, World, WorldPred>)
        requires
            self.wf(),
        ensures
            handle.view()@.wf(),
    {
        self.shared_state.acquire_read()
    }

    /// One guest `send` call: routes the envelope to every destination the
    /// target implies, under a write-scoped world access that is released
    /// before returning. The aggregate outcome is the router's: `Ok`
    /// unless a networked destination's transport faulted. Local delivery
    /// cannot fail, whatever world the handle holds; only the networked
    /// outcome depends on the roster behind the lock.
    pub fn send(&mut self, target: Target, name: String, data: Vec<u8>) -> (r: Result<
        (),
        TransportError,
    >)
        requires
            old(self).wf(),
        ensures
            *final(self) == *old(self),
            target is LocalBroadcast ==> r is Ok,
            target is LocalDirect ==> r is Ok,
    {
        let (mut w, handle) = self.shared_state.acquire_write();
        let ghost w_pre: crate::world::WorldView = w@;
        let r = route_send(&mut w, self.id, &target, &name, &data);
        handle.release_write(w);
        proof {
            if target is LocalBroadcast || target is LocalDirect {
                assert(crate::router::send_outcome(w_pre, target@) is None);
            }
        }
        r
    }

    /// One guest fetch call: captures the calling module's identity and
    /// the URL, and returns immediately. The returned request is what the
    /// background scheduler runs; the response comes back later through
    /// [`deliver_response_shared`].
    pub fn get(&mut self, url: String) -> (request: FetchRequest)
        requires
            old(self).wf(),
        ensures
            request.module == old(self).module_id(),
            request.url == url,
            *final(self) == *old(self),
    {
        FetchRequest { url, module: self.id }
    }

    /// One guest package-load call: queues the URL for the
    /// package-resolution collaborator, under a write-scoped access.
    pub fn load(&mut self, url: String)
        requires
            old(self).wf(),
        ensures
            *final(self) == *old(self),
    {
        let (mut w, handle) = self.shared_state.acquire_write();
        w.request_package_load(url);
        handle.release_write(w);
    }

    /// The player's current raw-input snapshot, read under a read-scoped
    /// access: a pure query, absent (not an error) for an unknown player
    /// or before any ingestion.
    pub fn player_get_raw_input(&mut self, player: EntityId) -> (r: Option<RawInput>)
        requires
            old(self).wf(),
        ensures
            *final(self) == *old(self),
    {
        let handle = self.shared_state.acquire_read();
        let r = match handle.borrow().get_raw_input(player) {
            Some(inp) => Some(inp.duplicate()),
            None => None,
        };
        handle.release_read();
        r
    }

    /// The player's previous-tick snapshot, under the same rules.
    pub fn player_get_prev_raw_input(&mut self, player: EntityId) -> (r: Option<RawInput>)
        requires
            old(self).wf(),
        ensures
            *final(self) == *old(self),
    {
        let handle = self.shared_state.acquire_read();
        let r = match handle.borrow().get_prev_raw_input(player) {
            Some(inp) => Some(inp.duplicate()),
            None => None,
        };
        handle.release_read();
        r
    }
}

/// Re-entry for a completed fetch: runs on the world-owning side, takes a
/// write-scoped access, and delivers the response to the originating
/// module only. A module unloaded meanwhile makes this a no-op, not an
/// error.
pub fn deliver_response_shared(
    shared: &SharedWorld,
    module: EntityId,
    response: &HttpResponse,
) -> (delivered: bool)
    requires
        shared.pred() == WorldPred,
{
    let (mut w, handle) = shared.acquire_write();
    let d = deliver_http_response(&mut w, module, response);
    handle.release_write(w);
    d
}

} // verus!
