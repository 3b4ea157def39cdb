//! The schema encoding of messages: each enum is its variant index as a
//! varint followed by its fields in order; integers are varints; byte
//! buffers are their length as a varint followed by the bytes.

use vstd::prelude::*;
use vstd::slice::slice_to_vec;
use crate::icd::{
    Error, PeekBytes, Poked, Request, Response, UnalignedFlashAddr, same_reply, same_request,
    same_response,
};
use crate::managed::Managed;

verus! {

/// The varint form of `n`: seven bits per byte, least significant group
/// first, the high bit set on every byte but the last.
pub open spec fn varint_bytes(n: nat) -> Seq<u8>
    decreases n,
{
    if n < 128 {
        seq![n as u8]
    } else {
        seq![(n % 128 + 128) as u8] + varint_bytes(n / 128)
    }
}

/// A byte buffer (its length, then its bytes) followed by `rest`.
pub open spec fn blob_then(data: Seq<u8>, rest: Seq<u8>) -> Seq<u8> {
    varint_bytes(data.len()) + (data + rest)
}

/// The variant index of a request.
pub open spec fn request_tag(m: Request) -> nat {
    match m {
        Request::PeekBytes { .. } => 0,
        Request::PokeBytes { .. } => 1,
        Request::ClearMagic => 2,
        Request::Reboot => 3,
        Request::Bootload { .. } => 4,
        Request::PeekBytesFlash { .. } => 5,
        Request::FlashCopy { .. } => 6,
    }
}

/// The fields of `m` in order, followed by `rest`.
pub open spec fn request_fields(m: Request, rest: Seq<u8>) -> Seq<u8> {
    match m {
        Request::PeekBytes { addr, len } => varint_bytes(addr as nat) + (varint_bytes(len as nat)
            + rest),
        Request::PokeBytes { addr, val } => varint_bytes(addr as nat) + blob_then(val@, rest),
        Request::ClearMagic => rest,
        Request::Reboot => rest,
        Request::Bootload { addr } => varint_bytes(addr as nat) + rest,
        Request::PeekBytesFlash { addr, len } => varint_bytes(addr as nat) + (varint_bytes(
            len as nat,
        ) + rest),
        Request::FlashCopy { ram_start, flash_start, len } => varint_bytes(ram_start as nat) + (
        varint_bytes(flash_start as nat) + (varint_bytes(len as nat) + rest)),
    }
}

/// The encoding of `m` followed by `rest`.
pub open spec fn request_then(m: Request, rest: Seq<u8>) -> Seq<u8> {
    varint_bytes(request_tag(m)) + request_fields(m, rest)
}

/// The encoding of a request.
pub open spec fn request_bytes(m: Request) -> Seq<u8> {
    request_then(m, Seq::empty())
}

/// The variant index of an error.
pub open spec fn error_tag(e: Error) -> nat {
    match e {
        Error::AddressOutOfRange { .. } => 0,
        Error::RangeTooLarge { .. } => 1,
        Error::UnalignedFlashAddr(_) => 2,
        Error::CantOverwriteBootloader => 3,
        Error::FlashCopyFailed => 4,
    }
}

/// The fields of `e` in order, followed by `rest`.
pub open spec fn error_fields(e: Error, rest: Seq<u8>) -> Seq<u8> {
    match e {
        Error::AddressOutOfRange { request, len, min, max } => varint_bytes(request as nat) + (
        varint_bytes(len as nat) + (varint_bytes(min as nat) + (varint_bytes(max as nat) + rest))),
        Error::RangeTooLarge { request, max } => varint_bytes(request as nat) + (varint_bytes(
            max as nat,
        ) + rest),
        Error::UnalignedFlashAddr(u) => varint_bytes(u.addr as nat) + (varint_bytes(
            u.align as nat,
        ) + rest),
        Error::CantOverwriteBootloader => rest,
        Error::FlashCopyFailed => rest,
    }
}

/// The encoding of `e` followed by `rest`.
pub open spec fn error_then(e: Error, rest: Seq<u8>) -> Seq<u8> {
    varint_bytes(error_tag(e)) + error_fields(e, rest)
}

/// The variant index of a response.
pub open spec fn response_tag(r: Response) -> nat {
    match r {
        Response::PeekBytes(_) => 0,
        Response::Poked(_) => 1,
        Response::MagicCleared => 2,
        Response::PeekBytesFlash(_) => 3,
        Response::FlashCopied => 4,
    }
}

/// The fields of `r` in order, followed by `rest`.
pub open spec fn response_fields(r: Response, rest: Seq<u8>) -> Seq<u8> {
    match r {
        Response::PeekBytes(p) => varint_bytes(p.addr as nat) + blob_then(p.val@, rest),
        Response::Poked(p) => varint_bytes(p.addr as nat) + rest,
        Response::MagicCleared => rest,
        Response::PeekBytesFlash(p) => varint_bytes(p.addr as nat) + blob_then(p.val@, rest),
        Response::FlashCopied => rest,
    }
}

/// The encoding of `r` followed by `rest`.
pub open spec fn response_then(r: Response, rest: Seq<u8>) -> Seq<u8> {
    varint_bytes(response_tag(r)) + response_fields(r, rest)
}

/// The encoding of a reply (a response or an error) followed by `rest`.
pub open spec fn reply_then(r: Result<Response, Error>, rest: Seq<u8>) -> Seq<u8> {
    match r {
        Ok(x) => varint_bytes(0) + response_then(x, rest),
        Err(e) => varint_bytes(1) + error_then(e, rest),
    }
}

/// The encoding of a reply.
pub open spec fn reply_bytes(r: Result<Response, Error>) -> Seq<u8> {
    reply_then(r, Seq::empty())
}

/// Relies on postcard::to_stdvec: an unsigned integer is serialised as a
/// varint, seven bits per byte, least significant group first.
#[verifier::external_body]
fn write_varint(n: u64) -> (r: Vec<u8>)
    ensures
        r@ == varint_bytes(n as nat),
{
    match postcard::to_stdvec(&n) {
        Ok(v) => v,
        Err(_) => Vec::new(),
    }
}

/// Relies on postcard::take_from_bytes: reads one varint from the front of
/// `b` and hands back the bytes after it; an empty input is an error.
#[verifier::external_body]
pub(crate) fn take_varint(b: &[u8]) -> (r: Option<(u64, &[u8])>)
    ensures
        forall|n: nat|
            #![trigger varint_bytes(n)]
            forall|rest: Seq<u8>|
                n <= u64::MAX && #[trigger] (varint_bytes(n) + rest) == b@
                    ==> r is Some && r.unwrap().0 == n && r.unwrap().1@ == rest,
        b@.len() == 0 ==> r is None,
{
    match postcard::take_from_bytes::<u64>(b) {
        Ok((v, t)) => Some((v, t)),
        Err(_) => None,
    }
}

pub(crate) fn put_varint(out: &mut Vec<u8>, n: u64)
    ensures
        final(out)@ == old(out)@ + varint_bytes(n as nat),
{
    let mut v = write_varint(n);
    out.append(&mut v);
}

pub(crate) fn put_blob(out: &mut Vec<u8>, data: &[u8])
    ensures
        final(out)@ == old(out)@ + varint_bytes(data@.len()) + data@,
{
    let len = data.len();
    put_varint(out, len as u64);
    let mut v = slice_to_vec(data);
    out.append(&mut v);
}

pub(crate) fn take_usize<'a>(b: &'a [u8]) -> (r: Option<(usize, &'a [u8])>)
    ensures
        forall|n: nat, rest: Seq<u8>|
            n <= usize::MAX && #[trigger] (varint_bytes(n) + rest) == b@ ==> (r matches Some(
                (v, t),
            ) && v == n && t@ == rest),
        b@.len() == 0 ==> r is None,
{
    match take_varint(b) {
        Some((v, t)) => {
            if v <= usize::MAX as u64 {
                Some((v as usize, t))
            } else {
                None
            }
        },
        None => None,
    }
}

pub(crate) fn take_blob<'a>(b: &'a [u8]) -> (r: Option<(&'a [u8], &'a [u8])>)
    ensures
        forall|data: Seq<u8>, rest: Seq<u8>|
            #[trigger] blob_then(data, rest) == b@ ==> (r matches Some((d, t)) && d@ == data && t@
                == rest),
{
    let blen = b.len();
    match take_usize(b) {
        Some((len, t)) => {
            if len <= t.len() {
                let (d, t2) = t.split_at(len);
                proof {
                    assert forall|data: Seq<u8>, rest: Seq<u8>|
                        #[trigger] blob_then(data, rest) == b@ implies d@ == data && t2@
                        == rest by {
                        assert(data.len() <= blen);
                        assert(t@ == data + rest);
                        assert((data + rest).subrange(0, data.len() as int) =~= data);
                        assert((data + rest).subrange(data.len() as int, (data + rest).len() as int)
                            =~= rest);
                    }
                }
                Some((d, t2))
            } else {
                proof {
                    assert forall|data: Seq<u8>, rest: Seq<u8>|
                        #[trigger] blob_then(data, rest) == b@ implies false by {
                        assert(data.len() <= blen);
                        assert(t@ == data + rest);
                    }
                }
                None
            }
        },
        None => {
            proof {
                assert forall|data: Seq<u8>, rest: Seq<u8>|
                    #[trigger] blob_then(data, rest) == b@ implies false by {
                    assert(data.len() <= blen);
                }
            }
            None
        },
    }
}

/// Encodes a request.
pub fn encode_request(m: &Request) -> (r: Vec<u8>)
    ensures
        r@ == request_bytes(*m),
{
    let mut out: Vec<u8> = Vec::new();
    match m {
        Request::PeekBytes { addr, len } => {
            put_varint(&mut out, 0);
            put_varint(&mut out, *addr as u64);
            put_varint(&mut out, *len as u64);
        },
        Request::PokeBytes { addr, val } => {
            put_varint(&mut out, 1);
            put_varint(&mut out, *addr as u64);
            put_blob(&mut out, val.as_slice());
        },
        Request::ClearMagic => {
            put_varint(&mut out, 2);
        },
        Request::Reboot => {
            put_varint(&mut out, 3);
        },
        Request::Bootload { addr } => {
            put_varint(&mut out, 4);
            put_varint(&mut out, *addr as u64);
        },
        Request::PeekBytesFlash { addr, len } => {
            put_varint(&mut out, 5);
            put_varint(&mut out, *addr as u64);
            put_varint(&mut out, *len as u64);
        },
        Request::FlashCopy { ram_start, flash_start, len } => {
            put_varint(&mut out, 6);
            put_varint(&mut out, *ram_start as u64);
            put_varint(&mut out, *flash_start as u64);
            put_varint(&mut out, *len as u64);
        },
    }
    assert(out@ =~= request_bytes(*m));
    out
}

/// Decodes a request from the front of `b`, handing back the bytes after it.
/// Byte payloads borrow from `b`.
pub fn decode_request<'a>(b: &'a [u8]) -> (r: Option<(Request<'a>, &'a [u8])>)
    ensures
        forall|m: Request, rest: Seq<u8>|
            #[trigger] request_then(m, rest) == b@ ==> (r matches Some((d, t)) && same_request(
                d,
                m,
            ) && t@ == rest),
{
    let (tag, b1) = match take_varint(b) {
        Some(x) => x,
        None => return None,
    };
    if tag == 0 || tag == 5 {
        let (addr, b2) = match take_usize(b1) {
            Some(x) => x,
            None => return None,
        };
        let (len, b3) = match take_usize(b2) {
            Some(x) => x,
            None => return None,
        };
        if tag == 0 {
            Some((Request::PeekBytes { addr, len }, b3))
        } else {
            Some((Request::PeekBytesFlash { addr, len }, b3))
        }
    } else if tag == 1 {
        let (addr, b2) = match take_usize(b1) {
            Some(x) => x,
            None => return None,
        };
        let (val, b3) = match take_blob(b2) {
            Some(x) => x,
            None => return None,
        };
        Some((Request::PokeBytes { addr, val: Managed::from_borrowed(val) }, b3))
    } else if tag == 2 {
        Some((Request::ClearMagic, b1))
    } else if tag == 3 {
        Some((Request::Reboot, b1))
    } else if tag == 4 {
        let (addr, b2) = match take_varint(b1) {
            Some(x) => x,
            None => return None,
        };
        if addr > u32::MAX as u64 {
            return None;
        }
        Some((Request::Bootload { addr: addr as u32 }, b2))
    } else if tag == 6 {
        let (ram_start, b2) = match take_usize(b1) {
            Some(x) => x,
            None => return None,
        };
        let (flash_start, b3) = match take_usize(b2) {
            Some(x) => x,
            None => return None,
        };
        let (len, b4) = match take_usize(b3) {
            Some(x) => x,
            None => return None,
        };
        Some((Request::FlashCopy { ram_start, flash_start, len }, b4))
    } else {
        None
    }
}

fn put_error(out: &mut Vec<u8>, e: &Error)
    ensures
        final(out)@ == old(out)@ + error_then(*e, Seq::empty()),
{
    let ghost start = out@;
    match e {
        Error::AddressOutOfRange { request, len, min, max } => {
            put_varint(out, 0);
            put_varint(out, *request as u64);
            put_varint(out, *len as u64);
            put_varint(out, *min as u64);
            put_varint(out, *max as u64);
        },
        Error::RangeTooLarge { request, max } => {
            put_varint(out, 1);
            put_varint(out, *request as u64);
            put_varint(out, *max as u64);
        },
        Error::UnalignedFlashAddr(u) => {
            put_varint(out, 2);
            put_varint(out, u.addr as u64);
            put_varint(out, u.align as u64);
        },
        Error::CantOverwriteBootloader => {
            put_varint(out, 3);
        },
        Error::FlashCopyFailed => {
            put_varint(out, 4);
        },
    }
    assert(out@ =~= start + error_then(*e, Seq::empty()));
}

fn put_response(out: &mut Vec<u8>, m: &Response)
    ensures
        final(out)@ == old(out)@ + response_then(*m, Seq::empty()),
{
    let ghost start = out@;
    match m {
        Response::PeekBytes(p) => {
            put_varint(out, 0);
            put_varint(out, p.addr as u64);
            put_blob(out, p.val.as_slice());
        },
        Response::Poked(p) => {
            put_varint(out, 1);
            put_varint(out, p.addr as u64);
        },
        Response::MagicCleared => {
            put_varint(out, 2);
        },
        Response::PeekBytesFlash(p) => {
            put_varint(out, 3);
            put_varint(out, p.addr as u64);
            put_blob(out, p.val.as_slice());
        },
        Response::FlashCopied => {
            put_varint(out, 4);
        },
    }
    assert(out@ =~= start + response_then(*m, Seq::empty()));
}

/// Encodes a reply: a response or an error.
pub fn encode_reply(m: &Result<Response, Error>) -> (r: Vec<u8>)
    ensures
        r@ == reply_bytes(*m),
{
    let mut out: Vec<u8> = Vec::new();
    match m {
        Ok(x) => {
            put_varint(&mut out, 0);
            put_response(&mut out, x);
        },
        Err(e) => {
            put_varint(&mut out, 1);
            put_error(&mut out, e);
        },
    }
    assert(out@ =~= reply_bytes(*m));
    out
}

fn decode_error(b: &[u8]) -> (r: Option<(Error, &[u8])>)
    ensures
        forall|m: Error, rest: Seq<u8>|
            #[trigger] error_then(m, rest) == b@ ==> (r matches Some((d, t)) && d == m && t@
                == rest),
{
    let (tag, b1) = match take_varint(b) {
        Some(x) => x,
        None => return None,
    };
    if tag == 0 {
        let (request, b2) = match take_usize(b1) {
            Some(x) => x,
            None => return None,
        };
        let (len, b3) = match take_usize(b2) {
            Some(x) => x,
            None => return None,
        };
        let (min, b4) = match take_usize(b3) {
            Some(x) => x,
            None => return None,
        };
        let (max, b5) = match take_usize(b4) {
            Some(x) => x,
            None => return None,
        };
        Some((Error::AddressOutOfRange { request, len, min, max }, b5))
    } else if tag == 1 || tag == 2 {
        let (x1, b2) = match take_usize(b1) {
            Some(x) => x,
            None => return None,
        };
        let (x2, b3) = match take_usize(b2) {
            Some(x) => x,
            None => return None,
        };
        if tag == 1 {
            Some((Error::RangeTooLarge { request: x1, max: x2 }, b3))
        } else {
            Some((Error::UnalignedFlashAddr(UnalignedFlashAddr { addr: x1, align: x2 }), b3))
        }
    } else if tag == 3 {
        Some((Error::CantOverwriteBootloader, b1))
    } else if tag == 4 {
        Some((Error::FlashCopyFailed, b1))
    } else {
        None
    }
}

fn decode_response<'a>(b: &'a [u8]) -> (r: Option<(Response<'a>, &'a [u8])>)
    ensures
        forall|m: Response, rest: Seq<u8>|
            #[trigger] response_then(m, rest) == b@ ==> (r matches Some((d, t)) && same_response(
                d,
                m,
            ) && t@ == rest),
{
    let (tag, b1) = match take_varint(b) {
        Some(x) => x,
        None => return None,
    };
    if tag == 0 || tag == 3 {
        let (addr, b2) = match take_usize(b1) {
            Some(x) => x,
            None => return None,
        };
        let (val, b3) = match take_blob(b2) {
            Some(x) => x,
            None => return None,
        };
        let pb = PeekBytes { addr, val: Managed::from_borrowed(val) };
        if tag == 0 {
            Some((Response::PeekBytes(pb), b3))
        } else {
            Some((Response::PeekBytesFlash(pb), b3))
        }
    } else if tag == 1 {
        let (addr, b2) = match take_usize(b1) {
            Some(x) => x,
            None => return None,
        };
        Some((Response::Poked(Poked { addr }), b2))
    } else if tag == 2 {
        Some((Response::MagicCleared, b1))
    } else if tag == 4 {
        Some((Response::FlashCopied, b1))
    } else {
        None
    }
}

/// Decodes a reply from the front of `b`, handing back the bytes after it.
pub fn decode_reply<'a>(b: &'a [u8]) -> (r: Option<(Result<Response<'a>, Error>, &'a [u8])>)
    ensures
        forall|m: Result<Response, Error>, rest: Seq<u8>|
            #[trigger] reply_then(m, rest) == b@ ==> (r matches Some((d, t)) && same_reply(d, m)
                && t@ == rest),
{
    let (tag, b1) = match take_varint(b) {
        Some(x) => x,
        None => return None,
    };
    if tag == 0 {
        match decode_response(b1) {
            Some((x, t)) => Some((Ok(x), t)),
            None => None,
        }
    } else if tag == 1 {
        match decode_error(b1) {
            Some((e, t)) => Some((Err(e), t)),
            None => None,
        }
    } else {
        None
    }
}

/// Varints are prefix-free: a varint followed by anything determines both.
pub proof fn lemma_varint_prefix(a: nat, b: nat, r1: Seq<u8>, r2: Seq<u8>)
    requires
        varint_bytes(a) + r1 == varint_bytes(b) + r2,
    ensures
        a == b,
        r1 == r2,
    decreases a,
{
    let va = varint_bytes(a);
    let vb = varint_bytes(b);
    assert((va + r1)[0] == va[0]);
    assert((vb + r2)[0] == vb[0]);
    if a < 128 {
        if b >= 128 {
            assert(vb[0] == (b % 128 + 128) as u8);
        }
        assert(va =~= seq![a as u8]);
        assert(vb =~= seq![b as u8]);
        assert(r1 =~= (va + r1).subrange(1, (va + r1).len() as int));
        assert(r2 =~= (vb + r2).subrange(1, (vb + r2).len() as int));
    } else {
        if b < 128 {
            assert(vb[0] == b as u8);
        }
        let ta = varint_bytes(a / 128);
        let tb = varint_bytes(b / 128);
        assert(va == seq![(a % 128 + 128) as u8] + ta);
        assert(vb == seq![(b % 128 + 128) as u8] + tb);
        assert(a % 128 == b % 128);
        assert(ta + r1 =~= (va + r1).subrange(1, (va + r1).len() as int));
        assert(tb + r2 =~= (vb + r2).subrange(1, (vb + r2).len() as int));
        lemma_varint_prefix(a / 128, b / 128, r1, r2);
    }
}

/// A byte buffer followed by anything determines both.
pub proof fn lemma_blob_prefix(d1: Seq<u8>, d2: Seq<u8>, r1: Seq<u8>, r2: Seq<u8>)
    requires
        blob_then(d1, r1) == blob_then(d2, r2),
    ensures
        d1 == d2,
        r1 == r2,
{
    lemma_varint_prefix(d1.len(), d2.len(), d1 + r1, d2 + r2);
    assert(d1 =~= (d1 + r1).subrange(0, d1.len() as int));
    assert(d2 =~= (d2 + r2).subrange(0, d2.len() as int));
    assert(r1 =~= (d1 + r1).subrange(d1.len() as int, (d1 + r1).len() as int));
    assert(r2 =~= (d2 + r2).subrange(d2.len() as int, (d2 + r2).len() as int));
}

/// Requests are uniquely decodable: an encoded request followed by anything
/// determines the request and what follows it. With the contracts of
/// `encode_request` and `decode_request`, decoding an encoded request gives
/// back the same request.
pub proof fn lemma_request_round_trip(m1: Request, m2: Request, r1: Seq<u8>, r2: Seq<u8>)
    requires
        request_then(m1, r1) == request_then(m2, r2),
    ensures
        same_request(m1, m2),
        r1 == r2,
{
    lemma_varint_prefix(request_tag(m1), request_tag(m2), request_fields(m1, r1), request_fields(m2, r2));
    match (m1, m2) {
        (Request::PeekBytes { addr: a1, len: l1 }, Request::PeekBytes { addr: a2, len: l2 }) => {
            lemma_varint_prefix(a1 as nat, a2 as nat, varint_bytes(l1 as nat) + r1, varint_bytes(l2 as nat) + r2);
            lemma_varint_prefix(l1 as nat, l2 as nat, r1, r2);
        },
        (Request::PeekBytesFlash { addr: a1, len: l1 }, Request::PeekBytesFlash { addr: a2, len: l2 }) => {
            lemma_varint_prefix(a1 as nat, a2 as nat, varint_bytes(l1 as nat) + r1, varint_bytes(l2 as nat) + r2);
            lemma_varint_prefix(l1 as nat, l2 as nat, r1, r2);
        },
        (Request::PokeBytes { addr: a1, val: v1 }, Request::PokeBytes { addr: a2, val: v2 }) => {
            lemma_varint_prefix(a1 as nat, a2 as nat, blob_then(v1@, r1), blob_then(v2@, r2));
            lemma_blob_prefix(v1@, v2@, r1, r2);
        },
        (Request::Bootload { addr: a1 }, Request::Bootload { addr: a2 }) => {
            lemma_varint_prefix(a1 as nat, a2 as nat, r1, r2);
        },
        (
            Request::FlashCopy { ram_start: s1, flash_start: f1, len: l1 },
            Request::FlashCopy { ram_start: s2, flash_start: f2, len: l2 },
        ) => {
            lemma_varint_prefix(s1 as nat, s2 as nat, varint_bytes(f1 as nat) + (varint_bytes(l1 as nat) + r1), varint_bytes(f2 as nat) + (varint_bytes(l2 as nat) + r2));
            lemma_varint_prefix(f1 as nat, f2 as nat, varint_bytes(l1 as nat) + r1, varint_bytes(l2 as nat) + r2);
            lemma_varint_prefix(l1 as nat, l2 as nat, r1, r2);
        },
        _ => {},
    }
}

/// Replies are uniquely decodable: an encoded reply followed by anything
/// determines the reply and what follows it. With the contracts of
/// `encode_reply` and `decode_reply`, decoding an encoded reply gives back
/// the same reply.
pub proof fn lemma_reply_round_trip(
    m1: Result<Response, Error>,
    m2: Result<Response, Error>,
    r1: Seq<u8>,
    r2: Seq<u8>,
)
    requires
        reply_then(m1, r1) == reply_then(m2, r2),
    ensures
        same_reply(m1, m2),
        r1 == r2,
{
    match (m1, m2) {
        (Ok(x1), Ok(x2)) => {
            lemma_varint_prefix(0, 0, response_then(x1, r1), response_then(x2, r2));
            lemma_response_unique(x1, x2, r1, r2);
        },
        (Err(e1), Err(e2)) => {
            lemma_varint_prefix(1, 1, error_then(e1, r1), error_then(e2, r2));
            lemma_error_unique(e1, e2, r1, r2);
        },
        (Ok(x1), Err(e2)) => {
            lemma_varint_prefix(0, 1, response_then(x1, r1), error_then(e2, r2));
        },
        (Err(e1), Ok(x2)) => {
            lemma_varint_prefix(1, 0, error_then(e1, r1), response_then(x2, r2));
        },
    }
}

proof fn lemma_response_unique(m1: Response, m2: Response, r1: Seq<u8>, r2: Seq<u8>)
    requires
        response_then(m1, r1) == response_then(m2, r2),
    ensures
        same_response(m1, m2),
        r1 == r2,
{
    lemma_varint_prefix(response_tag(m1), response_tag(m2), response_fields(m1, r1), response_fields(m2, r2));
    match (m1, m2) {
        (Response::PeekBytes(pa), Response::PeekBytes(pb)) => {
            lemma_varint_prefix(pa.addr as nat, pb.addr as nat, blob_then(pa.val@, r1), blob_then(pb.val@, r2));
            lemma_blob_prefix(pa.val@, pb.val@, r1, r2);
        },
        (Response::PeekBytesFlash(pa), Response::PeekBytesFlash(pb)) => {
            lemma_varint_prefix(pa.addr as nat, pb.addr as nat, blob_then(pa.val@, r1), blob_then(pb.val@, r2));
            lemma_blob_prefix(pa.val@, pb.val@, r1, r2);
        },
        (Response::Poked(pa), Response::Poked(pb)) => {
            lemma_varint_prefix(pa.addr as nat, pb.addr as nat, r1, r2);
        },
        _ => {},
    }
}

proof fn lemma_error_unique(m1: Error, m2: Error, r1: Seq<u8>, r2: Seq<u8>)
    requires
        error_then(m1, r1) == error_then(m2, r2),
    ensures
        m1 == m2,
        r1 == r2,
{
    lemma_varint_prefix(error_tag(m1), error_tag(m2), error_fields(m1, r1), error_fields(m2, r2));
    match (m1, m2) {
        (
            Error::AddressOutOfRange { request: q1, len: l1, min: a1, max: b1 },
            Error::AddressOutOfRange { request: q2, len: l2, min: a2, max: b2 },
        ) => {
            lemma_varint_prefix(q1 as nat, q2 as nat, varint_bytes(l1 as nat) + (varint_bytes(a1 as nat) + (varint_bytes(b1 as nat) + r1)), varint_bytes(l2 as nat) + (varint_bytes(a2 as nat) + (varint_bytes(b2 as nat) + r2)));
            lemma_varint_prefix(l1 as nat, l2 as nat, varint_bytes(a1 as nat) + (varint_bytes(b1 as nat) + r1), varint_bytes(a2 as nat) + (varint_bytes(b2 as nat) + r2));
            lemma_varint_prefix(a1 as nat, a2 as nat, varint_bytes(b1 as nat) + r1, varint_bytes(b2 as nat) + r2);
            lemma_varint_prefix(b1 as nat, b2 as nat, r1, r2);
        },
        (Error::RangeTooLarge { request: q1, max: b1 }, Error::RangeTooLarge { request: q2, max: b2 }) => {
            lemma_varint_prefix(q1 as nat, q2 as nat, varint_bytes(b1 as nat) + r1, varint_bytes(b2 as nat) + r2);
            lemma_varint_prefix(b1 as nat, b2 as nat, r1, r2);
        },
        (Error::UnalignedFlashAddr(u1), Error::UnalignedFlashAddr(u2)) => {
            lemma_varint_prefix(u1.addr as nat, u2.addr as nat, varint_bytes(u1.align as nat) + r1, varint_bytes(u2.align as nat) + r2);
            lemma_varint_prefix(u1.align as nat, u2.align as nat, r1, r2);
        },
        _ => {},
    }
}

} // verus!
