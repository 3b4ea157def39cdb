//! Messages on the wire: encoding then framing, and the reverse.

use vstd::prelude::*;
use crate::frame::{
    FeedEvent, cobs_decoding, cobs_encoding, feed_all, frame, framed, lemma_frame_alone,
    lemma_resync, zero_free,
};
use crate::icd::{Error, Request, Response, same_reply, same_request};
use crate::soup_icd::{
    FromSoup, ToSoup, decode_from_soup, decode_to_soup, encode_from_soup, encode_to_soup,
    from_soup_bytes, from_soup_then, same_from_soup, same_to_soup, to_soup_bytes, to_soup_then,
};
use crate::wire::{
    decode_reply, decode_request, encode_reply, encode_request, reply_bytes, reply_then,
    request_bytes, request_then,
};

verus! {

/// The capacity of the frame accumulators on both ends.
pub const ACC_SIZE: usize = 512;

/// Whether `w` is how `payload` is sent: a zero guard, a stuffed body that
/// holds no zero and unstuffs to `payload`, a zero terminator.
pub open spec fn frames(w: Seq<u8>, payload: Seq<u8>) -> bool {
    &&& w == framed(cobs_encoding(payload))
    &&& zero_free(cobs_encoding(payload))
    &&& 0 < cobs_encoding(payload).len() <= payload.len() + payload.len() / 254 + 1
    &&& cobs_decoding(cobs_encoding(payload).push(0)) == Some(payload)
}

/// Whether the frame of `payload` fits an accumulator of capacity `cap`
/// however the payload's zero bytes fall.
pub open spec fn fits(payload: Seq<u8>, cap: nat) -> bool {
    payload.len() + payload.len() / 254 + 2 <= cap
}

/// The bytes the host sends for a request.
pub fn frame_request(m: &Request) -> (r: Vec<u8>)
    ensures
        frames(r@, request_bytes(*m)),
{
    let payload = encode_request(m);
    frame(payload.as_slice())
}

/// The bytes the loader sends for a reply.
pub fn frame_reply(m: &Result<Response, Error>) -> (r: Vec<u8>)
    ensures
        frames(r@, reply_bytes(*m)),
{
    let payload = encode_reply(m);
    frame(payload.as_slice())
}

/// Decodes the unstuffed bytes of a frame as a request; bytes after the
/// request are ignored.
pub fn parse_request(payload: &[u8]) -> (r: Option<Request<'static>>)
    ensures
        forall|m: Request, rest: Seq<u8>|
            #[trigger] request_then(m, rest) == payload@ ==> (r matches Some(d) && same_request(
                d,
                m,
            )),
{
    match decode_request(payload) {
        Some((m, _)) => Some(m.to_owned()),
        None => None,
    }
}

/// Decodes the unstuffed bytes of a frame as a reply; bytes after the
/// reply are ignored.
pub fn parse_reply(payload: &[u8]) -> (r: Option<Result<Response<'static>, Error>>)
    ensures
        forall|m: Result<Response, Error>, rest: Seq<u8>|
            #[trigger] reply_then(m, rest) == payload@ ==> (r matches Some(d) && same_reply(d, m)),
{
    match decode_reply(payload) {
        Some((Ok(x), _)) => Some(Ok(x.to_owned())),
        Some((Err(e), _)) => Some(Err(e)),
        None => None,
    }
}

/// The bytes the host sends to the application.
pub fn frame_to_soup(m: &ToSoup) -> (r: Vec<u8>)
    ensures
        frames(r@, to_soup_bytes(*m)),
{
    let payload = encode_to_soup(m);
    frame(payload.as_slice())
}

/// The bytes the application sends to the host.
pub fn frame_from_soup(m: &FromSoup) -> (r: Vec<u8>)
    ensures
        frames(r@, from_soup_bytes(*m)),
{
    let payload = encode_from_soup(m);
    frame(payload.as_slice())
}

/// Decodes the unstuffed bytes of a frame as a message to the application.
pub fn parse_to_soup(payload: &[u8]) -> (r: Option<ToSoup<'static>>)
    ensures
        forall|m: ToSoup, rest: Seq<u8>|
            #[trigger] to_soup_then(m, rest) == payload@ ==> (r matches Some(d) && same_to_soup(
                d,
                m,
            )),
{
    decode_to_soup(payload)
}

/// Decodes the unstuffed bytes of a frame as a message from the application.
pub fn parse_from_soup(payload: &[u8]) -> (r: Option<FromSoup<'static>>)
    ensures
        forall|m: FromSoup, rest: Seq<u8>|
            #[trigger] from_soup_then(m, rest) == payload@ ==> (r matches Some(d) && same_from_soup(
                d,
                m,
            )),
{
    decode_from_soup(payload)
}

/// A framed payload read through an empty accumulator comes out as exactly
/// one frame, the payload itself, after the rejected guard; the accumulator
/// is then empty. With the parse functions' contracts, a framed message
/// comes back equal.
pub proof fn lemma_frame_read_back(w: Seq<u8>, payload: Seq<u8>, cap: nat)
    requires
        frames(w, payload),
        fits(payload, cap),
    ensures
        feed_all(Seq::empty(), w, cap) == (
            seq![FeedEvent::Rejected, FeedEvent::Frame(payload)],
            Seq::<u8>::empty(),
        ),
{
    lemma_frame_alone(cobs_encoding(payload), cap);
}

/// Whatever an accumulator held and whatever corrupted bytes `junk` came
/// before it, a framed payload is read back: the events are those of the
/// corrupted bytes, closed by the frame's guard, then exactly one frame,
/// the payload, after which the accumulator is empty.
pub proof fn lemma_frame_resync(buf: Seq<u8>, junk: Seq<u8>, w: Seq<u8>, payload: Seq<u8>, cap: nat)
    requires
        buf.len() <= cap,
        frames(w, payload),
        fits(payload, cap),
    ensures
        feed_all(buf, junk + w, cap) == (
            feed_all(buf, junk.push(0), cap).0 + seq![FeedEvent::Frame(payload)],
            Seq::<u8>::empty(),
        ),
{
    lemma_resync(buf, junk, cobs_encoding(payload), cap);
}

} // verus!
