//! The messages exchanged between the host and the loader.

use vstd::prelude::*;
use crate::managed::Managed;

verus! {

/// A request from the host to the loader.
#[allow(inconsistent_fields)]
pub enum Request<'a> {
    /// Read `len` bytes of scratch RAM at `addr`.
    PeekBytes { addr: usize, len: usize },
    /// Write `val` into scratch RAM at `addr`.
    PokeBytes { addr: usize, val: Managed<'a> },
    /// Clear the handoff record.
    ClearMagic,
    /// Reset the device.
    Reboot,
    /// Jump to `addr` after the next reset.
    Bootload { addr: u32 },
    /// Read `len` bytes of flash at `addr`.
    PeekBytesFlash { addr: usize, len: usize },
    /// Program `len` bytes of scratch RAM at `ram_start` into flash at `flash_start`.
    FlashCopy { ram_start: usize, flash_start: usize, len: usize },
}

/// An error reported by the loader.
#[derive(PartialEq, Eq, Structural, Clone, Copy, Debug)]
pub enum Error {
    AddressOutOfRange { request: usize, len: usize, min: usize, max: usize },
    RangeTooLarge { request: usize, max: usize },
    UnalignedFlashAddr(UnalignedFlashAddr),
    CantOverwriteBootloader,
    FlashCopyFailed,
}

/// Bytes read from the device, with the address they were read at.
pub struct PeekBytes<'a> {
    pub addr: usize,
    pub val: Managed<'a>,
}

/// Acknowledges a write at `addr`.
#[derive(PartialEq, Eq, Structural, Clone, Copy, Debug)]
pub struct Poked {
    pub addr: usize,
}

/// A flash address that is not aligned to the erase granularity.
#[derive(PartialEq, Eq, Structural, Clone, Copy, Debug)]
pub struct UnalignedFlashAddr {
    pub addr: usize,
    pub align: usize,
}

/// A reply from the loader.
pub enum Response<'a> {
    PeekBytes(PeekBytes<'a>),
    Poked(Poked),
    MagicCleared,
    PeekBytesFlash(PeekBytes<'a>),
    FlashCopied,
}

impl<'a> PeekBytes<'a> {
    /// A copy that owns its bytes.
    pub fn to_owned(&self) -> (r: PeekBytes<'static>)
        ensures
            r.addr == self.addr,
            r.val@ == self.val@,
    {
        PeekBytes { addr: self.addr, val: self.val.to_owned() }
    }
}

/// Whether two requests carry the same values (bytes compared by content).
pub open spec fn same_request(a: Request, b: Request) -> bool {
    match (a, b) {
        (Request::PeekBytes { addr: a1, len: l1 }, Request::PeekBytes { addr: a2, len: l2 }) =>
            a1 == a2 && l1 == l2,
        (Request::PokeBytes { addr: a1, val: v1 }, Request::PokeBytes { addr: a2, val: v2 }) =>
            a1 == a2 && v1@ == v2@,
        (Request::ClearMagic, Request::ClearMagic) => true,
        (Request::Reboot, Request::Reboot) => true,
        (Request::Bootload { addr: a1 }, Request::Bootload { addr: a2 }) => a1 == a2,
        (
            Request::PeekBytesFlash { addr: a1, len: l1 },
            Request::PeekBytesFlash { addr: a2, len: l2 },
        ) => a1 == a2 && l1 == l2,
        (
            Request::FlashCopy { ram_start: r1, flash_start: f1, len: l1 },
            Request::FlashCopy { ram_start: r2, flash_start: f2, len: l2 },
        ) => r1 == r2 && f1 == f2 && l1 == l2,
        _ => false,
    }
}

/// Whether two responses carry the same values (bytes compared by content).
pub open spec fn same_response(a: Response, b: Response) -> bool {
    match (a, b) {
        (Response::PeekBytes(pa), Response::PeekBytes(pb)) => pa.addr == pb.addr && pa.val@
            == pb.val@,
        (Response::Poked(pa), Response::Poked(pb)) => pa == pb,
        (Response::MagicCleared, Response::MagicCleared) => true,
        (Response::PeekBytesFlash(pa), Response::PeekBytesFlash(pb)) => pa.addr == pb.addr
            && pa.val@ == pb.val@,
        (Response::FlashCopied, Response::FlashCopied) => true,
        _ => false,
    }
}

/// Whether two replies (a response or an error) carry the same values.
pub open spec fn same_reply(a: Result<Response, Error>, b: Result<Response, Error>) -> bool {
    match (a, b) {
        (Ok(r1), Ok(r2)) => same_response(r1, r2),
        (Err(e1), Err(e2)) => e1 == e2,
        _ => false,
    }
}

impl<'a> Response<'a> {
    /// A copy that owns its bytes.
    pub fn to_owned(&self) -> (r: Response<'static>)
        ensures
            same_response(r, *self),
    {
        match self {
            Response::PeekBytes(pb) => Response::PeekBytes(pb.to_owned()),
            Response::PeekBytesFlash(pbf) => Response::PeekBytesFlash(pbf.to_owned()),
            Response::Poked(p) => Response::Poked(Poked { addr: p.addr }),
            Response::MagicCleared => Response::MagicCleared,
            Response::FlashCopied => Response::FlashCopied,
        }
    }
}

impl<'a> Request<'a> {
    /// A copy that owns its bytes.
    pub fn to_owned(&self) -> (r: Request<'static>)
        ensures
            same_request(r, *self),
    {
        match self {
            Request::PeekBytes { addr, len } => Request::PeekBytes { addr: *addr, len: *len },
            Request::PokeBytes { addr, val } => Request::PokeBytes {
                addr: *addr,
                val: val.to_owned(),
            },
            Request::ClearMagic => Request::ClearMagic,
            Request::Reboot => Request::Reboot,
            Request::Bootload { addr } => Request::Bootload { addr: *addr },
            Request::PeekBytesFlash { addr, len } => Request::PeekBytesFlash {
                addr: *addr,
                len: *len,
            },
            Request::FlashCopy { ram_start, flash_start, len } => Request::FlashCopy {
                ram_start: *ram_start,
                flash_start: *flash_start,
                len: *len,
            },
        }
    }
}

} // verus!
