//! The async bridge: fetch results and their re-entry into the world.
//!
//! A guest-initiated fetch runs on a background task outside this library;
//! the call returns immediately and carries no result. What is verified
//! here is everything around that I/O: packaging the outcome into a
//! response value (every failure mode folds into one optional message
//! beside a zero status, on purpose), framing the response as the payload
//! bytes of an envelope, and delivering that envelope to the originating
//! module only, on the world-owning side. Delivery to an unloaded module
//! is a no-op, never an error: unload is the one cancellation signal the
//! bridge recognizes.

use vstd::prelude::*;

use vstd::bytes::{
    lemma_auto_spec_u32_to_from_le_bytes, lemma_auto_spec_u64_to_from_le_bytes,
    spec_u32_from_le_bytes, spec_u32_to_le_bytes, spec_u64_from_le_bytes, spec_u64_to_le_bytes,
    u32_from_le_bytes, u32_to_le_bytes, u64_from_le_bytes, u64_to_le_bytes,
};
use vstd::slice::{slice_subrange, slice_to_vec};
use vstd::string::StringSliceAdditionalSpecFns;
use vstd::utf8::encode_utf8;

use crate::ids::EntityId;
use crate::message::{Envelope, EnvelopeView};
use crate::world::{ModuleView, World, WorldView};

verus! {

/// The response value a fetch produces: success carries the status and
/// body; every failure (transport, resolution, malformed reply) folds into
/// `error` beside the `0` status sentinel. Callers branch on the status.
#[derive(PartialEq, Eq, Debug)]
pub struct HttpResponse {
    /// The URL the guest asked for, echoed back.
    pub url: String,
    /// HTTP status, or `0` when the fetch failed before a status existed.
    pub status: u32,
    /// Response body, empty on failure.
    pub body: Vec<u8>,
    /// The failure description, absent on success.
    pub error: Option<String>,
}

/// Mathematical model of an [`HttpResponse`].
pub struct HttpResponseView {
    pub url: Seq<char>,
    pub status: u32,
    pub body: Seq<u8>,
    pub error: Option<Seq<char>>,
}

impl View for HttpResponse {
    type V = HttpResponseView;

    open spec fn view(&self) -> HttpResponseView {
        HttpResponseView {
            url: self.url@,
            status: self.status,
            body: self.body@,
            error: self.error.deep_view(),
        }
    }
}

/// The view of a fetch outcome as the background task reports it.
pub open spec fn outcome_view(outcome: Result<(u32, Vec<u8>), String>) -> Result<
    (u32, Seq<u8>),
    Seq<char>,
> {
    match outcome {
        Ok(p) => Ok((p.0, p.1@)),
        Err(m) => Err(m@),
    }
}

/// The one response a fetch outcome is packaged into.
pub open spec fn response_of(url: Seq<char>, outcome: Result<(u32, Seq<u8>), Seq<char>>) -> HttpResponseView {
    match outcome {
        Ok(p) => HttpResponseView { url, status: p.0, body: p.1, error: None },
        Err(m) => HttpResponseView { url, status: 0, body: Seq::empty(), error: Some(m) },
    }
}

/// Packages a fetch outcome into the response delivered to the guest:
/// success keeps status and body; failure becomes the `0` status sentinel,
/// an empty body, and the failure text.
pub fn package_response(url: String, outcome: Result<(u32, Vec<u8>), String>) -> (r: HttpResponse)
    ensures
        r@ == response_of(url@, outcome_view(outcome)),
{
    match outcome {
        Ok(p) => HttpResponse { url, status: p.0, body: p.1, error: None },
        Err(m) => {
            let r = HttpResponse { url, status: 0, body: Vec::new(), error: Some(m) };
            proof {
                assert(r.body@ =~= Seq::<u8>::empty());
            }
            r
        },
    }
}

/// What a guest fetch call hands the background task scheduler: the URL
/// to fetch and the module the response must come back to. The call
/// returns as soon as this is captured; the result arrives later as an
/// inbound message.
#[derive(PartialEq, Eq, Debug)]
pub struct FetchRequest {
    /// The URL the guest asked for.
    pub url: String,
    /// The module that initiated the fetch and will receive the response.
    pub module: EntityId,
}

/// The wire form of a response: the frame whose bytes become the payload
/// of the re-entry envelope. Strings travel as their UTF-8 bytes.
#[derive(PartialEq, Eq, Debug)]
pub struct HttpFrame {
    pub status: u32,
    pub url: Vec<u8>,
    pub body: Vec<u8>,
    pub error: Option<Vec<u8>>,
}

/// Mathematical model of an [`HttpFrame`].
pub struct HttpFrameView {
    pub status: u32,
    pub url: Seq<u8>,
    pub body: Seq<u8>,
    pub error: Option<Seq<u8>>,
}

impl View for HttpFrame {
    type V = HttpFrameView;

    open spec fn view(&self) -> HttpFrameView {
        HttpFrameView {
            status: self.status,
            url: self.url@,
            body: self.body@,
            error: match self.error {
                Some(v) => Some(v@),
                None => None,
            },
        }
    }
}

impl DeepView for HttpFrame {
    type V = HttpFrameView;

    open spec fn deep_view(&self) -> HttpFrameView {
        self.view()
    }
}

/// The frame a response is framed into.
pub open spec fn frame_of(r: HttpResponseView) -> HttpFrameView {
    HttpFrameView {
        status: r.status,
        url: encode_utf8(r.url),
        body: r.body,
        error: match r.error {
            Some(m) => Some(encode_utf8(m)),
            None => None,
        },
    }
}

/// Whether a frame's parts fit the wire format's length prefixes.
pub open spec fn frame_fits(f: HttpFrameView) -> bool {
    &&& f.url.len() < 0x1_0000_0000_0000_0000
    &&& f.body.len() < 0x1_0000_0000_0000_0000
    &&& (f.error matches Some(e) ==> e.len() < 0x1_0000_0000_0000_0000)
}

/// The wire bytes of a frame: status, then the length-prefixed URL and
/// body, then a tagged, length-prefixed optional error.
pub open spec fn spec_encode_frame(f: HttpFrameView) -> Seq<u8> {
    spec_u32_to_le_bytes(f.status) + spec_u64_to_le_bytes(f.url.len() as u64) + f.url
        + spec_u64_to_le_bytes(f.body.len() as u64) + f.body + (match f.error {
        None => seq![0u8],
        Some(e) => seq![1u8] + spec_u64_to_le_bytes(e.len() as u64) + e,
    })
}

/// The frame some wire bytes decode to, if they are well-formed from the
/// first byte to the last.
pub open spec fn spec_decode_frame(b: Seq<u8>) -> Option<HttpFrameView> {
    if b.len() < 12 {
        None
    } else {
        let status = spec_u32_from_le_bytes(b.subrange(0, 4));
        let url_len = spec_u64_from_le_bytes(b.subrange(4, 12)) as int;
        if b.len() < 20 + url_len {
            None
        } else {
            let url = b.subrange(12, 12 + url_len);
            let body_len = spec_u64_from_le_bytes(
                b.subrange(12 + url_len, 20 + url_len),
            ) as int;
            if b.len() < 21 + url_len + body_len {
                None
            } else {
                let body = b.subrange(20 + url_len, 20 + url_len + body_len);
                let tag_pos = 20 + url_len + body_len;
                if b[tag_pos] == 0 {
                    if b.len() == tag_pos + 1 {
                        Some(HttpFrameView { status, url, body, error: None })
                    } else {
                        None
                    }
                } else if b[tag_pos] == 1 {
                    if b.len() < tag_pos + 9 {
                        None
                    } else {
                        let err_len = spec_u64_from_le_bytes(
                            b.subrange(tag_pos + 1, tag_pos + 9),
                        ) as int;
                        if b.len() == tag_pos + 9 + err_len {
                            Some(
                                HttpFrameView {
                                    status,
                                    url,
                                    body,
                                    error: Some(b.subrange(tag_pos + 9, tag_pos + 9 + err_len)),
                                },
                            )
                        } else {
                            None
                        }
                    }
                } else {
                    None
                }
            }
        }
    }
}

/// Appends one byte sequence to another.
#[verifier::loop_isolation(false)]
fn append_bytes(dst: &mut Vec<u8>, src: &Vec<u8>)
    ensures
        final(dst)@ == old(dst)@ + src@,
{
    let mut i: usize = 0;
    while i < src.len()
        invariant
            i <= src.len(),
            dst@ == old(dst)@ + src@.subrange(0, i as int),
        decreases src.len() - i,
    {
        dst.push(src[i]);
        proof {
            assert(dst@ =~= old(dst)@ + src@.subrange(0, i + 1 as int));
        }
        i = i + 1;
    }
    proof {
        assert(dst@ =~= old(dst)@ + src@);
    }
}

/// Encodes a frame to its wire bytes.
#[verifier::loop_isolation(false)]
pub fn encode_frame(f: &HttpFrame) -> (b: Vec<u8>)
    ensures
        b@ == spec_encode_frame(f@),
{
    let mut out = u32_to_le_bytes(f.status);
    let url_len = u64_to_le_bytes(f.url.len() as u64);
    append_bytes(&mut out, &url_len);
    append_bytes(&mut out, &f.url);
    let body_len = u64_to_le_bytes(f.body.len() as u64);
    append_bytes(&mut out, &body_len);
    append_bytes(&mut out, &f.body);
    match &f.error {
        None => {
            out.push(0u8);
            proof {
                assert(out@ =~= spec_encode_frame(f@));
            }
        },
        Some(e) => {
            out.push(1u8);
            let err_len = u64_to_le_bytes(e.len() as u64);
            append_bytes(&mut out, &err_len);
            append_bytes(&mut out, e);
            proof {
                assert(out@ =~= spec_encode_frame(f@));
            }
        },
    }
    out
}

/// Decodes wire bytes back to a frame, refusing anything the format does
/// not produce.
#[verifier::loop_isolation(false)]
pub fn decode_frame(b: &Vec<u8>) -> (r: Option<HttpFrame>)
    ensures
        r.deep_view() == spec_decode_frame(b@),
{
    if b.len() < 12 {
        return None;
    }
    let status = u32_from_le_bytes(slice_subrange(b.as_slice(), 0, 4));
    let url_len64 = u64_from_le_bytes(slice_subrange(b.as_slice(), 4, 12));
    let avail: u64 = (b.len() - 12) as u64;
    if url_len64 > avail || avail - url_len64 < 8 {
        proof {
            assert((b@.len() as int) < 20 + (url_len64 as int));
        }
        return None;
    }
    proof {
        assert((b@.len() as int) >= 20 + (url_len64 as int));
    }
    let url_len = url_len64 as usize;
    let url = slice_to_vec(slice_subrange(b.as_slice(), 12, 12 + url_len));
    let body_len64 = u64_from_le_bytes(
        slice_subrange(b.as_slice(), 12 + url_len, 20 + url_len),
    );
    let avail2: u64 = (b.len() - 20 - url_len) as u64;
    if body_len64 > avail2 || avail2 - body_len64 < 1 {
        proof {
            assert((b@.len() as int) < 21 + (url_len as int) + (body_len64 as int));
        }
        return None;
    }
    proof {
        assert((b@.len() as int) >= 21 + (url_len as int) + (body_len64 as int));
    }
    let body_len = body_len64 as usize;
    let body = slice_to_vec(slice_subrange(b.as_slice(), 20 + url_len, 20 + url_len + body_len));
    let tag_pos = 20 + url_len + body_len;
    let tag = b[tag_pos];
    proof {
        assert(status == spec_u32_from_le_bytes(b@.subrange(0, 4)));
        assert(url_len as int == spec_u64_from_le_bytes(b@.subrange(4, 12)) as int);
        assert(url@ == b@.subrange(12, 12 + url_len as int));
        assert(body_len as int == spec_u64_from_le_bytes(
            b@.subrange(12 + url_len as int, 20 + url_len as int),
        ) as int);
        assert(body@ == b@.subrange(20 + url_len as int, 20 + url_len as int + body_len as int));
        assert(tag == b@[tag_pos as int]);
    }
    if tag == 0 {
        if b.len() == tag_pos + 1 {
            let out = Some(HttpFrame { status, url, body, error: None });
            proof {
                assert(spec_decode_frame(b@) == Some(
                    HttpFrameView { status, url: url@, body: body@, error: None },
                ));
            }
            out
        } else {
            None
        }
    } else if tag == 1 {
        if b.len() - tag_pos < 9 {
            return None;
        }
        let err_len64 = u64_from_le_bytes(slice_subrange(b.as_slice(), tag_pos + 1, tag_pos + 9));
        let avail3: u64 = (b.len() - tag_pos - 9) as u64;
        if err_len64 != avail3 {
            proof {
                assert((b@.len() as int) != (tag_pos as int) + 9 + (err_len64 as int));
            }
            return None;
        }
        let err_len = err_len64 as usize;
        let err = slice_to_vec(slice_subrange(b.as_slice(), tag_pos + 9, tag_pos + 9 + err_len));
        let out = Some(HttpFrame { status, url, body, error: Some(err) });
        proof {
            assert(err_len as int == spec_u64_from_le_bytes(
                b@.subrange(tag_pos as int + 1, tag_pos as int + 9),
            ) as int);
            assert(err@ == b@.subrange(tag_pos as int + 9, tag_pos as int + 9 + err_len as int));
            assert(b@.len() == tag_pos as int + 9 + err_len as int);
            assert(spec_decode_frame(b@) == Some(
                HttpFrameView { status, url: url@, body: body@, error: Some(err@) },
            ));
        }
        out
    } else {
        None
    }
}

/// Law: the wire format round-trips. Decoding what `spec_encode_frame`
/// produced gives back exactly the frame that was encoded.
pub proof fn lemma_frame_round_trip(f: HttpFrameView)
    requires
        frame_fits(f),
    ensures
        spec_decode_frame(spec_encode_frame(f)) == Some(f),
{
    lemma_auto_spec_u32_to_from_le_bytes();
    lemma_auto_spec_u64_to_from_le_bytes();
    let b = spec_encode_frame(f);
    let ul = f.url.len() as int;
    let bl = f.body.len() as int;
    assert(b.subrange(0, 4) =~= spec_u32_to_le_bytes(f.status));
    assert(b.subrange(4, 12) =~= spec_u64_to_le_bytes(f.url.len() as u64));
    assert(b.subrange(12, 12 + ul) =~= f.url);
    assert(b.subrange(12 + ul, 20 + ul) =~= spec_u64_to_le_bytes(f.body.len() as u64));
    assert(b.subrange(20 + ul, 20 + ul + bl) =~= f.body);
    let tag_pos = 20 + ul + bl;
    match f.error {
        None => {
            assert(b.len() == tag_pos + 1);
            assert(b[tag_pos] == 0);
            assert(spec_decode_frame(b) == Some(f));
        },
        Some(e) => {
            let el = e.len() as int;
            assert(b[tag_pos] == 1);
            assert(b.subrange(tag_pos + 1, tag_pos + 9) =~= spec_u64_to_le_bytes(
                e.len() as u64,
            ));
            assert(b.subrange(tag_pos + 9, tag_pos + 9 + el) =~= e);
            assert(b.len() == tag_pos + 9 + el);
            assert(spec_decode_frame(b) == Some(f));
        },
    }
}

/// Frames a response for the wire.
pub fn response_to_frame(r: &HttpResponse) -> (f: HttpFrame)
    ensures
        f@ == frame_of(r@),
{
    let url = slice_to_vec(r.url.as_str().as_bytes());
    proof {
        assert(url@ == encode_utf8(r.url@));
    }
    let error = match &r.error {
        Some(m) => {
            let e = slice_to_vec(m.as_str().as_bytes());
            proof {
                assert(e@ == encode_utf8(m@));
            }
            Some(e)
        },
        None => None,
    };
    HttpFrame { status: r.status, url, body: crate::message::copy_bytes(&r.body), error }
}

/// How one module changes when a message is addressed to it alone.
pub open spec fn module_message(dest: EntityId, env: EnvelopeView) -> spec_fn(
    ModuleView,
) -> ModuleView {
    |m: ModuleView|
        if m.entity == dest {
            ModuleView { inbox: m.inbox.push(env), ..m }
        } else {
            m
        }
}

/// The world after a message addressed to one module alone: that module's
/// inbox grows by the envelope, and nothing else changes anywhere.
pub open spec fn after_module_message(w: WorldView, dest: EntityId, env: EnvelopeView) -> WorldView {
    WorldView { modules: w.modules.map_values(module_message(dest, env)), ..w }
}

/// Delivers one envelope to the module addressed by `dest` and to no
/// other. Returns whether the module was still loaded; if it was unloaded
/// meanwhile, the world is unchanged and that is not an error.
#[verifier::loop_isolation(false)]
pub fn deliver_to_module(
    world: &mut World,
    dest: EntityId,
    source: EntityId,
    name: &String,
    data: &Vec<u8>,
) -> (delivered: bool)
    ensures
        final(world)@ == after_module_message(
            old(world)@,
            dest,
            EnvelopeView { source, name: name@, data: data@ },
        ),
        delivered <==> old(world)@.has_module(dest),
        old(world)@.wf() ==> final(world)@.wf(),
{
    let ghost w0: WorldView = world@;
    let ghost env_view = EnvelopeView { source, name: name@, data: data@ };
    let mut hit = false;
    let mut i: usize = 0;
    while i < world.modules.len()
        invariant
            i <= world.modules.len(),
            world@.modules.len() == w0.modules.len(),
            world@.players == w0.players,
            world@.pending_loads == w0.pending_loads,
            forall|k: int|
                0 <= k < i ==> #[trigger] world@.modules[k] == (module_message(dest, env_view))(
                    w0.modules[k],
                ),
            forall|k: int|
                i <= k < w0.modules.len() ==> #[trigger] world@.modules[k] == w0.modules[k],
            hit <==> exists|k: int| 0 <= k < i && #[trigger] w0.modules[k].entity == dest,
        decreases world.modules.len() - i,
    {
        let ghost pre_exec: Seq<crate::world::Module> = world.modules@;
        let ghost pre_view: Seq<ModuleView> = world@.modules;
        let addressed = {
            let m: &crate::world::Module = &world.modules[i];
            m.entity == dest
        };
        proof {
            assert(forall|k: int|
                0 <= k < pre_exec.len() ==> #[trigger] pre_view[k] == pre_exec[k].deep_view());
            assert(pre_view[i as int] == w0.modules[i as int]);
        }
        if addressed {
            let env_i = Envelope::new(source, name, data);
            let ghost env_spec: Envelope = env_i;
            world.modules[i].inbox.push(env_i);
            hit = true;
            proof {
                assert(env_spec@ == env_view);
                assert(world.modules@[i as int].inbox@ == pre_exec[i as int].inbox@.push(env_spec));
                assert(world@.modules[i as int] == world.modules@[i as int].deep_view());
                assert forall|k: int|
                    0 <= k < world.modules@[i as int].inbox@.len() implies #[trigger] world.modules@[i as int].inbox.deep_view()[k]
                    == pre_exec[i as int].inbox.deep_view().push(env_view)[k] by {
                    assert(world.modules@[i as int].inbox.deep_view()[k]
                        == world.modules@[i as int].inbox@[k].deep_view());
                    if k < pre_exec[i as int].inbox@.len() {
                        assert(world.modules@[i as int].inbox@[k] == pre_exec[i as int].inbox@[k]);
                        assert(pre_exec[i as int].inbox.deep_view()[k] == pre_exec[
                            i as int
                        ].inbox@[k].deep_view());
                    } else {
                        assert(world.modules@[i as int].inbox@[k] == env_spec);
                    }
                }
                assert(world@.modules[i as int].inbox =~= pre_exec[i as int].inbox.deep_view().push(
                    env_view,
                ));
                assert(world@.modules[i as int] == (module_message(dest, env_view))(
                    w0.modules[i as int],
                ));
            }
        } else {
            proof {
                assert(world@.modules[i as int] == pre_view[i as int]);
                assert(world@.modules[i as int] == (module_message(dest, env_view))(
                    w0.modules[i as int],
                ));
            }
        }
        proof {
            assert forall|k: int|
                0 <= k <= i implies #[trigger] world@.modules[k] == (module_message(
                dest,
                env_view,
            ))(w0.modules[k]) by {
                assert(world@.modules[k] == world.modules@[k].deep_view());
                if k < i {
                    assert(world.modules@[k] == pre_exec[k]);
                    assert(pre_view[k] == pre_exec[k].deep_view());
                    assert(pre_view[k] == (module_message(dest, env_view))(w0.modules[k]));
                }
            }
            assert forall|k: int|
                i < k < w0.modules.len() implies #[trigger] world@.modules[k] == w0.modules[k] by {
                assert(world@.modules[k] == world.modules@[k].deep_view());
                assert(world.modules@[k] == pre_exec[k]);
                assert(pre_view[k] == pre_exec[k].deep_view());
                assert(pre_view[k] == w0.modules[k]);
            }
        }
        i = i + 1;
    }
    proof {
        crate::world::lemma_first_match(w0.modules, crate::world::module_entity_pred(dest));
        if hit {
            let k = choose|k: int| 0 <= k < w0.modules.len() && #[trigger] w0.modules[k].entity
                == dest;
            assert((crate::world::module_entity_pred(dest))(w0.modules[k]));
            assert(old(world)@.has_module(dest));
        } else {
            assert forall|k: int|
                0 <= k < w0.modules.len() implies !(crate::world::module_entity_pred(dest))(
                w0.modules[k],
            ) by {
                assert(w0.modules[k].entity != dest);
            }
            assert(!old(world)@.has_module(dest));
        }
        assert(world@.modules =~= w0.modules.map_values(module_message(dest, env_view)));
        if old(world)@.wf() {
            assert forall|a: int, b: int|
                0 <= a < b < world@.modules.len() implies #[trigger] world@.modules[a].entity
                != #[trigger] world@.modules[b].entity by {
                assert(world@.modules[a].entity == w0.modules[a].entity);
                assert(world@.modules[b].entity == w0.modules[b].entity);
            }
        }
    }
    hit
}

/// The message name a fetch response is delivered under.
pub open spec fn http_response_name() -> Seq<char> {
    "http_response"@
}

/// Delivers a fetch response to the module that initiated the fetch, and
/// to no other: the response is framed, and the frame's bytes become the
/// payload of an envelope self-addressed to that module. If the module was
/// unloaded before completion, nothing happens and nothing fails.
pub fn deliver_http_response(world: &mut World, module_id: EntityId, response: &HttpResponse) -> (delivered: bool)
    ensures
        final(world)@ == after_module_message(
            old(world)@,
            module_id,
            EnvelopeView {
                source: module_id,
                name: http_response_name(),
                data: spec_encode_frame(frame_of(response@)),
            },
        ),
        delivered <==> old(world)@.has_module(module_id),
        old(world)@.wf() ==> final(world)@.wf(),
{
    let name: String = "http_response".to_owned();
    let frame = response_to_frame(response);
    let data = encode_frame(&frame);
    deliver_to_module(world, module_id, module_id, &name, &data)
}

/// Law: re-entry touches the originating module only. Under
/// `after_module_message`, the addressed module's inbox grows by exactly
/// the one envelope, and every other module, every player, and the
/// pending-load queue are untouched.
pub proof fn law_response_reaches_origin_only(w: WorldView, dest: EntityId, env: EnvelopeView)
    ensures
        after_module_message(w, dest, env).players == w.players,
        after_module_message(w, dest, env).pending_loads == w.pending_loads,
        after_module_message(w, dest, env).modules.len() == w.modules.len(),
        forall|k: int|
            0 <= k < w.modules.len() && w.modules[k].entity == dest
                ==> #[trigger] after_module_message(w, dest, env).modules[k].inbox
                == w.modules[k].inbox.push(env),
        forall|k: int|
            0 <= k < w.modules.len() && w.modules[k].entity != dest
                ==> #[trigger] after_module_message(w, dest, env).modules[k] == w.modules[k],
{
    assert forall|k: int|
        0 <= k < w.modules.len() && w.modules[k].entity == dest implies #[trigger] after_module_message(
        w,
        dest,
        env,
    ).modules[k].inbox == w.modules[k].inbox.push(env) by {
        assert(after_module_message(w, dest, env).modules[k] == (module_message(dest, env))(
            w.modules[k],
        ));
    }
    assert forall|k: int|
        0 <= k < w.modules.len() && w.modules[k].entity != dest implies #[trigger] after_module_message(
        w,
        dest,
        env,
    ).modules[k] == w.modules[k] by {
        assert(after_module_message(w, dest, env).modules[k] == (module_message(dest, env))(
            w.modules[k],
        ));
    }
}

} // verus!
