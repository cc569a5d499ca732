//! A verified core of a host-guest message bridge: sandboxed guest modules
//! exchange messages with each other and with networked peers while a shared
//! simulation world keeps ticking.
//!
//! The crate models the world that the bridge reads and writes (players with
//! their transport endpoints and input snapshots, loaded guest modules with
//! their inboxes), routes outbound messages by a tagged `Target`, selects a
//! transport channel per reliability tier, packages asynchronous fetch
//! results for re-entry into the world, and answers raw-input queries.

pub mod ids;
pub mod input;
pub mod message;
pub mod transport;
pub mod world;
pub mod target;
pub mod router;
pub mod http;
pub mod bindings;
pub mod settings;
pub mod manifest;
