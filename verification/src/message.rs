//! Message envelopes: what one guest module sends to another party.
//!
//! An envelope carries the sending module's identity, a UTF-8 message name,
//! and an opaque payload. The router never interprets the payload; its
//! meaning belongs to the receiving module's handler for that name.

use vstd::prelude::*;

use crate::ids::EntityId;

verus! {

/// One outbound or delivered message.
#[derive(PartialEq, Eq, Debug)]
pub struct Envelope {
    /// The module that sent the message.
    pub source: EntityId,
    /// Name the receiver dispatches on.
    pub name: String,
    /// Opaque payload bytes.
    pub data: Vec<u8>,
}

/// Mathematical model of an [`Envelope`].
pub struct EnvelopeView {
    pub source: EntityId,
    pub name: Seq<char>,
    pub data: Seq<u8>,
}

impl View for Envelope {
    type V = EnvelopeView;

    open spec fn view(&self) -> EnvelopeView {
        EnvelopeView { source: self.source, name: self.name@, data: self.data@ }
    }
}

impl DeepView for Envelope {
    type V = EnvelopeView;

    open spec fn deep_view(&self) -> EnvelopeView {
        self.view()
    }
}

/// A byte-for-byte copy of a payload.
pub(crate) fn copy_bytes(src: &Vec<u8>) -> (r: Vec<u8>)
    ensures
        r@ == src@,
{
    let mut r: Vec<u8> = Vec::new();
    let mut i: usize = 0;
    while i < src.len()
        invariant
            i <= src.len(),
            r@ == src@.subrange(0, i as int),
        decreases src.len() - i,
    {
        r.push(src[i]);
        i = i + 1;
    }
    proof {
        assert(r@ =~= src@);
    }
    r
}

impl Envelope {
    /// Builds an envelope from borrowed parts, copying name and payload.
    pub fn new(source: EntityId, name: &String, data: &Vec<u8>) -> (e: Envelope)
        ensures
            e@ == (EnvelopeView { source, name: name@, data: data@ }),
    {
        Envelope { source, name: name.clone(), data: copy_bytes(data) }
    }

    /// A copy of the envelope, equal to it in the model.
    pub fn duplicate(&self) -> (e: Envelope)
        ensures
            e@ == self@,
    {
        Envelope { source: self.source, name: self.name.clone(), data: copy_bytes(&self.data) }
    }
}

/// A copy of a message sequence, equal to it in the model.
pub(crate) fn copy_envelopes(src: &Vec<Envelope>) -> (r: Vec<Envelope>)
    ensures
        r.deep_view() == src.deep_view(),
{
    let mut r: Vec<Envelope> = Vec::new();
    let mut i: usize = 0;
    while i < src.len()
        invariant
            i <= src.len(),
            r.deep_view() == src.deep_view().subrange(0, i as int),
        decreases src.len() - i,
    {
        let e: &Envelope = &src[i];
        let d = e.duplicate();
        let ghost pre_vec: Seq<Envelope> = r@;
        let ghost pre: Seq<EnvelopeView> = r.deep_view();
        let ghost d_spec: Envelope = d;
        let ghost d_view = d@;
        r.push(d);
        proof {
            assert(pre.len() == i as int);
            assert(pre_vec.len() == i as int);
            assert(r@ == pre_vec.push(d_spec));
            assert(src.deep_view()[i as int] == src@[i as int].deep_view());
            assert forall|k: int| 0 <= k <= i implies r.deep_view()[k] == src.deep_view()[k] by {
                assert(r@.len() == i + 1);
                assert(r.deep_view()[k] == r@[k].deep_view());
                if k < i {
                    assert(r@[k] == pre_vec[k]);
                    assert(pre[k] == pre_vec[k].deep_view());
                    assert(pre[k] == src.deep_view().subrange(0, i as int)[k]);
                } else {
                    assert(r@[k] == d_spec);
                    assert(d_view == d_spec.deep_view());
                    assert(d_view == src.deep_view()[k]);
                }
            }
            assert(r.deep_view() =~= src.deep_view().subrange(0, i + 1 as int));
        }
        i = i + 1;
    }
    proof {
        assert(r.deep_view() =~= src.deep_view());
    }
    r
}

} // verus!
