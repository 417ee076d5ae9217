//! The decode pump's per-payload step: feed one UDP payload to the single
//! stateful stream decoder and hand every message it emits, in emission
//! order, to the caller-supplied handler.
use vstd::prelude::*;

verus! {

/// photon_decode's stateful stream decoder. It is opaque here: the fragment
/// state it keeps between payloads is the outside crate's own concern.
#[verifier::external_type_specification]
#[verifier::external_body]
pub struct ExPhoton(photon_decode::Photon);

/// One application-level message the decoder reconstructed from payload
/// bytes; it is handed to the caller's handler and then owned by the caller.
#[verifier::external_type_specification]
#[verifier::external_body]
pub struct ExMessage(photon_decode::Message);

/// A name for how many messages photon_decode::Photon::decode emits for one
/// payload. The decoder's buffered fragment state is determined by the
/// payloads fed since its construction, and decoding reads only that state
/// and the payload bytes, so the count is a function of the two arguments.
pub uninterp spec fn decoded_count(fed: Seq<Seq<u8>>, payload: Seq<u8>) -> nat;

/// The pipeline's single long-lived stream decoder: the outside decoder
/// instance, together with the history of payloads fed to it since its
/// construction, which the decode pump extends exactly once per payload,
/// in receipt order.
pub struct StreamDecoder {
    photon: photon_decode::Photon,
    history: Ghost<Seq<Seq<u8>>>,
}

impl StreamDecoder {
    /// The payloads fed to this decoder since its construction, earliest
    /// first.
    pub closed spec fn fed(&self) -> Seq<Seq<u8>> {
        self.history@
    }
}

/// Relies on photon_decode::Photon::new: a fresh decoder with no buffered
/// fragments.
#[verifier::external_body]
fn photon_new() -> photon_decode::Photon {
    photon_decode::Photon::new()
}

/// Constructs the decode pump's one decoder, once, before its loop begins:
/// nothing has been fed to it yet.
pub fn new_decoder() -> (decoder: StreamDecoder)
    ensures
        decoder.fed() == Seq::<Seq<u8>>::empty(),
{
    StreamDecoder { photon: photon_new(), history: Ghost(Seq::empty()) }
}

/// Relies on photon_decode::Photon::decode: it reads the payload bytes and
/// the decoder's buffered fragment state — itself determined by the
/// payloads fed so far — and returns the messages it could reconstruct, in
/// emission order, returning none, rather than failing, when the bytes do
/// not decode. The call feeds the payload to the decoder exactly once,
/// recorded in its history.
#[verifier::external_body]
fn decode_payload(decoder: &mut StreamDecoder, payload: &[u8]) -> (messages: Vec<
    photon_decode::Message,
>)
    ensures
        final(decoder).fed() == old(decoder).fed().push(payload@),
        messages@.len() == decoded_count(old(decoder).fed(), payload@),
{
    decoder.photon.decode(payload)
}

/// Hands every decoded message to the handler, first to last in emission
/// order, and returns how many were delivered: one handler invocation per
/// message, never more, never fewer.
pub fn dispatch_messages<F: Fn(photon_decode::Message)>(
    messages: Vec<photon_decode::Message>,
    handler: &F,
) -> (delivered: usize)
    requires
        forall|m: photon_decode::Message| handler.requires((m,)),
    ensures
        delivered == messages@.len(),
{
    let total = messages.len();
    let mut messages = messages;
    let mut delivered: usize = 0;
    while messages.len() > 0
        invariant
            forall|m: photon_decode::Message| handler.requires((m,)),
            delivered + messages@.len() == total,
        decreases messages.len(),
    {
        let message = messages.remove(0);
        handler(message);
        delivered = delivered + 1;
    }
    delivered
}

/// One step of the decode pump: feeds `payload` to the decoder exactly
/// once and invokes `handler` once per emitted message, in emission order,
/// before returning; the pump's loop calls this once per payload, in
/// receipt order. Returns how many messages this payload produced.
pub fn pump_payload<F: Fn(photon_decode::Message)>(
    decoder: &mut StreamDecoder,
    payload: &[u8],
    handler: &F,
) -> (delivered: usize)
    requires
        forall|m: photon_decode::Message| handler.requires((m,)),
    ensures
        final(decoder).fed() == old(decoder).fed().push(payload@),
        delivered == decoded_count(old(decoder).fed(), payload@),
{
    let messages = decode_payload(decoder, payload);
    dispatch_messages(messages, handler)
}

/// A finite run of the decode pump: each payload is fed to the one decoder
/// exactly once, in receipt order, and each one's messages are handed to
/// the handler before the next payload is fed.
pub fn pump_payloads<F: Fn(photon_decode::Message)>(
    decoder: &mut StreamDecoder,
    payloads: &Vec<Vec<u8>>,
    handler: &F,
)
    requires
        forall|m: photon_decode::Message| handler.requires((m,)),
    ensures
        final(decoder).fed() == old(decoder).fed() + payloads.deep_view(),
{
    let ghost base = decoder.fed();
    let mut i: usize = 0;
    while i < payloads.len()
        invariant
            forall|m: photon_decode::Message| handler.requires((m,)),
            i <= payloads.len(),
            decoder.fed() == base + payloads.deep_view().take(i as int),
        decreases payloads.len() - i,
    {
        let ghost before = decoder.fed();
        assert(payloads.deep_view()[i as int] =~= payloads@[i as int]@);
        pump_payload(decoder, payloads[i].as_slice(), handler);
        assert(decoder.fed() =~= base + payloads.deep_view().take(i as int + 1)) by {
            assert(decoder.fed() == before.push(payloads.deep_view()[i as int]));
        }
        i = i + 1;
    }
    assert(base + payloads.deep_view().take(payloads.len() as int) =~= base
        + payloads.deep_view());
}

} // verus!
