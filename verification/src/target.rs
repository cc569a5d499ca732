//! Message addressing: where one outbound message goes.

use vstd::prelude::*;

use crate::ids::EntityId;

verus! {

/// Destination of one outbound message. A closed union, matched
/// exhaustively by the router: local versus networked, broadcast versus
/// direct, and the reliability tier for the networked variants.
#[derive(PartialEq, Eq, Debug)]
pub enum Target {
    /// All modules in the local process, optionally excluding the sender.
    LocalBroadcast(bool),
    /// One addressed local module, or every module of an addressed package.
    LocalDirect(EntityId),
    /// All currently connected players, over the unreliable channel.
    NetworkBroadcastUnreliable,
    /// All currently connected players, over the reliable channel.
    NetworkBroadcastReliable,
    /// The one player with this user id, over the unreliable channel.
    NetworkTargetedUnreliable(String),
    /// The one player with this user id, over the reliable channel.
    NetworkTargetedReliable(String),
}

/// Mathematical model of a [`Target`].
pub enum TargetView {
    LocalBroadcast(bool),
    LocalDirect(EntityId),
    NetworkBroadcastUnreliable,
    NetworkBroadcastReliable,
    NetworkTargetedUnreliable(Seq<char>),
    NetworkTargetedReliable(Seq<char>),
}

impl View for Target {
    type V = TargetView;

    open spec fn view(&self) -> TargetView {
        match self {
            Target::LocalBroadcast(include_self) => TargetView::LocalBroadcast(*include_self),
            Target::LocalDirect(id) => TargetView::LocalDirect(*id),
            Target::NetworkBroadcastUnreliable => TargetView::NetworkBroadcastUnreliable,
            Target::NetworkBroadcastReliable => TargetView::NetworkBroadcastReliable,
            Target::NetworkTargetedUnreliable(user_id) => TargetView::NetworkTargetedUnreliable(
                user_id@,
            ),
            Target::NetworkTargetedReliable(user_id) => TargetView::NetworkTargetedReliable(
                user_id@,
            ),
        }
    }
}

} // verus!
