//! Transport endpoints and channel selection.
//!
//! Each connected peer is reached over one of three channels offered by the
//! networking layer: a reliable ordered stream, an unreliable stream, and an
//! unreliable datagram channel. A connection here models what the bridge
//! hands that layer: the sequence of messages accepted per channel, in send
//! order, plus the transport fault (if any) that the layer reports for every
//! attempted send. Selection is a pure lookup; no retry or reordering logic
//! lives here.

use vstd::prelude::*;

use crate::message::{Envelope, EnvelopeView};

verus! {

/// One of the three channels the transport layer offers per connection.
#[derive(Clone, Copy, PartialEq, Eq, Structural, Debug)]
pub enum Channel {
    /// Delivers in send order, exactly once.
    ReliableStream,
    /// May drop or reorder, stream-framed.
    UnreliableStream,
    /// May drop or reorder, datagram-framed.
    Datagram,
}

/// A transport-level send failure, surfaced verbatim from the transport
/// layer for one connection only.
#[derive(PartialEq, Eq, Debug)]
pub struct TransportError {
    /// The transport layer's own description of the failure.
    pub message: String,
}

impl View for TransportError {
    type V = Seq<char>;

    open spec fn view(&self) -> Seq<char> {
        self.message@
    }
}

/// One peer's transport endpoint, as the bridge sees it: per-channel
/// sequences of accepted messages, and the fault the transport layer
/// currently reports for this connection, if any.
#[derive(PartialEq, Eq, Debug)]
pub struct Connection {
    /// Identifier of the endpoint within the networking layer.
    pub id: u64,
    /// A standing transport fault: while present, every send on this
    /// connection fails with this message.
    pub fault: Option<String>,
    /// Messages accepted on the reliable ordered stream, in send order.
    pub reliable: Vec<Envelope>,
    /// Messages accepted on the unreliable stream, in send order.
    pub unreliable: Vec<Envelope>,
    /// Messages accepted on the datagram channel, in send order.
    pub datagrams: Vec<Envelope>,
}

/// Mathematical model of a [`Connection`].
pub struct ConnectionView {
    pub id: u64,
    pub fault: Option<Seq<char>>,
    pub reliable: Seq<EnvelopeView>,
    pub unreliable: Seq<EnvelopeView>,
    pub datagrams: Seq<EnvelopeView>,
}

impl View for Connection {
    type V = ConnectionView;

    open spec fn view(&self) -> ConnectionView {
        ConnectionView {
            id: self.id,
            fault: self.fault.deep_view(),
            reliable: self.reliable.deep_view(),
            unreliable: self.unreliable.deep_view(),
            datagrams: self.datagrams.deep_view(),
        }
    }
}

impl DeepView for Connection {
    type V = ConnectionView;

    open spec fn deep_view(&self) -> ConnectionView {
        self.view()
    }
}

impl ConnectionView {
    /// The sequence of messages accepted so far on one channel.
    pub open spec fn queue(self, channel: Channel) -> Seq<EnvelopeView> {
        match channel {
            Channel::ReliableStream => self.reliable,
            Channel::UnreliableStream => self.unreliable,
            Channel::Datagram => self.datagrams,
        }
    }

    /// This connection with one channel's queue replaced.
    pub open spec fn with_queue(self, channel: Channel, q: Seq<EnvelopeView>) -> ConnectionView {
        match channel {
            Channel::ReliableStream => ConnectionView { reliable: q, ..self },
            Channel::UnreliableStream => ConnectionView { unreliable: q, ..self },
            Channel::Datagram => ConnectionView { datagrams: q, ..self },
        }
    }

    /// The endpoint after one attempted send: the message is accepted on the
    /// selected channel unless the transport reports a fault, in which case
    /// nothing is accepted anywhere.
    pub open spec fn after_send(self, channel: Channel, e: EnvelopeView) -> ConnectionView {
        if self.fault is Some {
            self
        } else {
            self.with_queue(channel, self.queue(channel).push(e))
        }
    }
}

impl Connection {
    /// A fresh, fault-free endpoint with empty channels.
    pub fn new(id: u64) -> (c: Connection)
        ensures
            c@ == (ConnectionView {
                id,
                fault: None,
                reliable: Seq::<EnvelopeView>::empty(),
                unreliable: Seq::<EnvelopeView>::empty(),
                datagrams: Seq::<EnvelopeView>::empty(),
            }),
    {
        let c = Connection {
            id,
            fault: None,
            reliable: Vec::new(),
            unreliable: Vec::new(),
            datagrams: Vec::new(),
        };
        proof {
            assert(c.reliable.deep_view() =~= Seq::<EnvelopeView>::empty());
            assert(c.unreliable.deep_view() =~= Seq::<EnvelopeView>::empty());
            assert(c.datagrams.deep_view() =~= Seq::<EnvelopeView>::empty());
        }
        c
    }

    /// A copy of the endpoint, equal to it in the model.
    pub fn duplicate(&self) -> (c: Connection)
        ensures
            c@ == self@,
    {
        let fault = match &self.fault {
            Some(m) => Some(m.clone()),
            None => None,
        };
        Connection {
            id: self.id,
            fault,
            reliable: crate::message::copy_envelopes(&self.reliable),
            unreliable: crate::message::copy_envelopes(&self.unreliable),
            datagrams: crate::message::copy_envelopes(&self.datagrams),
        }
    }

    /// Makes every further send on this endpoint fail with the given
    /// transport message, as a dead or refusing peer would.
    pub fn set_fault(&mut self, message: String)
        ensures
            final(self)@ == (ConnectionView { fault: Some(message@), ..old(self)@ }),
    {
        self.fault = Some(message);
    }
}

/// Hands one message to the transport layer on the selected channel.
///
/// This is the whole of channel selection: given a reliability tier's
/// channel, use that channel, and surface the transport layer's error
/// verbatim. A fault on one connection affects that connection only.
pub fn channel_send(conn: &mut Connection, channel: Channel, env: Envelope) -> (r: Result<
    (),
    TransportError,
>)
    ensures
        final(conn)@ == old(conn)@.after_send(channel, env@),
        r is Ok <==> old(conn)@.fault is None,
        r matches Err(e) ==> Some(e@) == old(conn)@.fault,
{
    match &conn.fault {
        Some(msg) => Err(TransportError { message: msg.clone() }),
        None => {
            match channel {
                Channel::ReliableStream => {
                    conn.reliable.push(env);
                    proof {
                        assert(conn.reliable.deep_view() =~= old(
                            conn,
                        ).reliable.deep_view().push(env@));
                    }
                },
                Channel::UnreliableStream => {
                    conn.unreliable.push(env);
                    proof {
                        assert(conn.unreliable.deep_view() =~= old(
                            conn,
                        ).unreliable.deep_view().push(env@));
                    }
                },
                Channel::Datagram => {
                    conn.datagrams.push(env);
                    proof {
                        assert(conn.datagrams.deep_view() =~= old(
                            conn,
                        ).datagrams.deep_view().push(env@));
                    }
                },
            }
            Ok(())
        },
    }
}

} // verus!
