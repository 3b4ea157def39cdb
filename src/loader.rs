//! The loader's request dispatcher: routes each request to the scratch
//! region, the flash or the handoff record, and says what to answer.

use vstd::prelude::*;
use crate::codec::{frame_reply, frames, parse_request};
use crate::flash::{Flash, programmed};
use crate::handoff::{HandoffRecord, armed_record, cleared_record};
use crate::icd::{Error, PeekBytes, Poked, Request, Response, UnalignedFlashAddr};
use crate::managed::Managed;
use crate::memory::Ram;
use crate::wire::{reply_bytes, request_then};

verus! {

/// The most bytes one peek reads.
pub const PEEK_MAX: usize = 256;

/// What the loader does with a request.
pub enum Outcome {
    /// Answer with a response or an error.
    Reply(Result<Response<'static>, Error>),
    /// Reset the device without answering.
    Reset,
    /// A request that this loader does not serve; nothing is answered.
    Unsupported,
}

/// The loader's state: the scratch region, the handoff record, the flash,
/// and the first flash offset that the host may program (what lies below
/// belongs to the loader).
pub struct Loader {
    pub scratch: Ram,
    pub handoff: HandoffRecord,
    pub flash: Flash,
    pub protected_end: usize,
}

/// Whether `[addr, addr + len)` lies inside the flash's address range.
pub open spec fn in_flash(f: Flash, addr: int, len: int) -> bool {
    f.base() <= addr && addr + len <= f.base() + f.contents().len()
}

/// The error for a flash range outside the flash.
pub open spec fn flash_out_of_range(f: Flash, addr: usize, len: usize) -> Error {
    Error::AddressOutOfRange {
        request: addr,
        len,
        min: f.base() as usize,
        max: (f.base() + f.contents().len()) as usize,
    }
}

/// Whether `r` answers with bytes `val` read at `addr`.
pub open spec fn peeked(r: Outcome, addr: usize, val: Seq<u8>, flash: bool) -> bool {
    match r {
        Outcome::Reply(Ok(Response::PeekBytes(p))) => !flash && p.addr == addr && p.val@ == val,
        Outcome::Reply(Ok(Response::PeekBytesFlash(p))) => flash && p.addr == addr && p.val@
            == val,
        _ => false,
    }
}

/// What handling `req` does: `old` is the state before, `new` the state
/// after, `r` the outcome.
pub open spec fn handled(old: Loader, new: Loader, req: Request, r: Outcome) -> bool {
    match req {
        Request::PeekBytes { addr, len } => new == old && if len > PEEK_MAX {
            r == Outcome::Reply(Err(Error::RangeTooLarge { request: len, max: PEEK_MAX }))
        } else if old.scratch.in_region(addr as int, len as int) {
            peeked(
                r,
                addr,
                old.scratch.contents().subrange(
                    addr - old.scratch.base(),
                    addr - old.scratch.base() + len,
                ),
                false,
            )
        } else {
            r == Outcome::Reply(Err(old.scratch.out_of_range(addr, len)))
        },
        Request::PokeBytes { addr, val } => new.handoff == old.handoff && new.flash == old.flash
            && new.protected_end == old.protected_end && new.scratch.base() == old.scratch.base()
            && if old.scratch.in_region(addr as int, val@.len() as int) {
            r == Outcome::Reply(Ok(Response::Poked(Poked { addr })))
                && new.scratch.contents() == old.scratch.contents().subrange(
                0,
                addr - old.scratch.base(),
            ) + val@ + old.scratch.contents().subrange(
                addr - old.scratch.base() + val@.len(),
                old.scratch.contents().len() as int,
            )
        } else {
            r == Outcome::Reply(Err(old.scratch.out_of_range(addr, val@.len() as usize)))
                && new.scratch.contents() == old.scratch.contents()
        },
        Request::ClearMagic => new == old && r is Unsupported,
        Request::Reboot => new == old && r is Reset,
        Request::Bootload { addr } => new.scratch == old.scratch && new.flash == old.flash
            && new.protected_end == old.protected_end && new.handoff == armed_record(addr)
            && r is Reset,
        Request::PeekBytesFlash { addr, len } => new == old && if len > PEEK_MAX {
            r == Outcome::Reply(Err(Error::RangeTooLarge { request: len, max: PEEK_MAX }))
        } else if in_flash(old.flash, addr as int, len as int) {
            peeked(
                r,
                addr,
                old.flash.contents().subrange(
                    addr - old.flash.base(),
                    addr - old.flash.base() + len,
                ),
                true,
            )
        } else {
            r == Outcome::Reply(Err(flash_out_of_range(old.flash, addr, len)))
        },
        Request::FlashCopy { ram_start, flash_start, len } => new.scratch == old.scratch
            && new.handoff == old.handoff && new.protected_end == old.protected_end
            && new.flash.base() == old.flash.base() && new.flash.erase_size()
            == old.flash.erase_size() && new.flash.write_size() == old.flash.write_size() && if !old.scratch.in_region(
            ram_start as int,
            len as int,
        ) {
            r == Outcome::Reply(Err(old.scratch.out_of_range(ram_start, len))) && new.flash
                == old.flash
        } else if !in_flash(old.flash, flash_start as int, len as int) {
            r == Outcome::Reply(Err(flash_out_of_range(old.flash, flash_start, len))) && new.flash
                == old.flash
        } else if (flash_start - old.flash.base()) % old.flash.erase_size() != 0 {
            r == Outcome::Reply(
                Err(
                    Error::UnalignedFlashAddr(
                        UnalignedFlashAddr {
                            addr: flash_start,
                            align: old.flash.erase_size() as usize,
                        },
                    ),
                ),
            ) && new.flash == old.flash
        } else if flash_start - old.flash.base() < old.protected_end {
            r == Outcome::Reply(Err(Error::CantOverwriteBootloader)) && new.flash == old.flash
        } else if !old.flash.program_fits(flash_start - old.flash.base(), len as int) {
            r == Outcome::Reply(Err(Error::FlashCopyFailed)) && new.flash.contents()
                == old.flash.contents()
        } else {
            r == Outcome::Reply(Ok(Response::FlashCopied)) && new.flash.contents() == programmed(
                old.flash.contents(),
                flash_start - old.flash.base(),
                old.scratch.contents().subrange(
                    ram_start - old.scratch.base(),
                    ram_start - old.scratch.base() + len,
                ),
                old.flash.erase_size(),
            )
        },
    }
}

impl Loader {
    pub open spec fn wf(&self) -> bool {
        self.scratch.wf() && self.flash.wf()
    }

    /// A loader over `scratch` and `flash` whose first `protected_end` flash
    /// bytes are its own, with no jump pending.
    pub fn new(scratch: Ram, flash: Flash, protected_end: usize) -> (r: Loader)
        requires
            scratch.wf(),
            flash.wf(),
        ensures
            r.wf(),
            r.scratch == scratch,
            r.flash == flash,
            r.protected_end == protected_end,
            r.handoff == cleared_record(),
    {
        Loader { scratch, handoff: HandoffRecord::cleared(), flash, protected_end }
    }

    /// Handles one request.
    pub fn req_handler(&mut self, req: &Request) -> (r: Outcome)
        requires
            old(self).wf(),
        ensures
            final(self).wf(),
            handled(*old(self), *final(self), *req, r),
    {
        match req {
            Request::PeekBytes { addr, len } => self.peek(*addr, *len),
            Request::PokeBytes { addr, val } => {
                match self.scratch.write_from(*addr, val.as_slice()) {
                    Ok(()) => Outcome::Reply(Ok(Response::Poked(Poked { addr: *addr }))),
                    Err(e) => Outcome::Reply(Err(e)),
                }
            },
            Request::ClearMagic => Outcome::Unsupported,
            Request::Reboot => Outcome::Reset,
            Request::Bootload { addr } => {
                self.handoff.write_handoff(*addr);
                Outcome::Reset
            },
            Request::PeekBytesFlash { addr, len } => self.peek_flash(*addr, *len),
            Request::FlashCopy { ram_start, flash_start, len } => self.flash_copy(
                *ram_start,
                *flash_start,
                *len,
            ),
        }
    }

    fn peek(&self, addr: usize, len: usize) -> (r: Outcome)
        requires
            self.wf(),
        ensures
            handled(*self, *self, Request::PeekBytes { addr, len }, r),
    {
        if len > PEEK_MAX {
            return Outcome::Reply(Err(Error::RangeTooLarge { request: len, max: PEEK_MAX }));
        }
        let mut membuf = vec![0u8; len];
        match self.scratch.read_to(addr, membuf.as_mut_slice()) {
            Ok(()) => Outcome::Reply(
                Ok(Response::PeekBytes(PeekBytes { addr, val: Managed::from_vec(membuf) })),
            ),
            Err(e) => Outcome::Reply(Err(e)),
        }
    }

    fn peek_flash(&self, addr: usize, len: usize) -> (r: Outcome)
        requires
            self.wf(),
        ensures
            handled(*self, *self, Request::PeekBytesFlash { addr, len }, r),
    {
        if len > PEEK_MAX {
            return Outcome::Reply(Err(Error::RangeTooLarge { request: len, max: PEEK_MAX }));
        }
        match self.flash_offset(addr, len) {
            Ok(off) => {
                let val = self.flash.read(off, len);
                Outcome::Reply(
                    Ok(Response::PeekBytesFlash(PeekBytes { addr, val: Managed::from_vec(val) })),
                )
            },
            Err(e) => Outcome::Reply(Err(e)),
        }
    }

    fn flash_copy(&mut self, ram_start: usize, flash_start: usize, len: usize) -> (r: Outcome)
        requires
            old(self).wf(),
        ensures
            final(self).wf(),
            handled(*old(self), *final(self), Request::FlashCopy { ram_start, flash_start, len }, r),
    {
        let mut data = vec![0u8; len];
        if let Err(e) = self.scratch.read_to(ram_start, data.as_mut_slice()) {
            return Outcome::Reply(Err(e));
        }
        let off = match self.flash_offset(flash_start, len) {
            Ok(off) => off,
            Err(e) => return Outcome::Reply(Err(e)),
        };
        let es = self.flash.erase_granularity();
        if off % es != 0 {
            return Outcome::Reply(
                Err(Error::UnalignedFlashAddr(UnalignedFlashAddr { addr: flash_start, align: es })),
            );
        }
        if off < self.protected_end {
            return Outcome::Reply(Err(Error::CantOverwriteBootloader));
        }
        match self.flash.program(off, data.as_slice()) {
            Ok(()) => Outcome::Reply(Ok(Response::FlashCopied)),
            Err(_) => Outcome::Reply(Err(Error::FlashCopyFailed)),
        }
    }

    /// The flash offset of `addr`, where `[addr, addr + len)` lies inside
    /// the flash.
    fn flash_offset(&self, addr: usize, len: usize) -> (r: Result<usize, Error>)
        requires
            self.flash.wf(),
        ensures
            in_flash(self.flash, addr as int, len as int) ==> r == Ok::<usize, Error>(
                (addr - self.flash.base()) as usize,
            ),
            !in_flash(self.flash, addr as int, len as int) ==> r == Err::<usize, Error>(
                flash_out_of_range(self.flash, addr, len),
            ),
    {
        let start = self.flash.base_addr();
        let end = start + self.flash.size();
        let inside = match addr.checked_add(len) {
            Some(range_end) => addr >= start && range_end <= end,
            None => false,
        };
        if inside {
            Ok(addr - start)
        } else {
            Err(Error::AddressOutOfRange { request: addr, len, min: start, max: end })
        }
    }
}

/// What the loader sends back for one frame.
pub enum FrameAction {
    /// Send these bytes.
    Send(Vec<u8>),
    /// Reset the device.
    Reset,
    /// Send nothing.
    Ignore,
}

/// Whether `a` carries out outcome `o`: a reply is framed and sent.
pub open spec fn acts_on(o: Outcome, a: FrameAction) -> bool {
    match o {
        Outcome::Reply(x) => a matches FrameAction::Send(b) && frames(b@, reply_bytes(x)),
        Outcome::Reset => a is Reset,
        Outcome::Unsupported => a is Ignore,
    }
}

/// Whether handling `req` takes the loader from `old` to `new` and is
/// carried out by `a`.
pub open spec fn handled_by(old: Loader, new: Loader, req: Request, a: FrameAction) -> bool {
    exists|o: Outcome| handled(old, new, req, o) && acts_on(o, a)
}

impl Loader {
    /// Handles the unstuffed bytes of one frame: a request (and whatever
    /// bytes follow it in the frame, which are ignored) is dispatched and its
    /// reply framed; bytes that do not decode are dropped.
    pub fn handle_frame(&mut self, payload: &[u8]) -> (r: FrameAction)
        requires
            old(self).wf(),
        ensures
            final(self).wf(),
            forall|m: Request, rest: Seq<u8>|
                #[trigger] request_then(m, rest) == payload@ ==> handled_by(
                    *old(self),
                    *final(self),
                    m,
                    r,
                ),
            r is Ignore && (forall|m: Request, rest: Seq<u8>| #[trigger] request_then(m, rest)
                != payload@)
                ==> *final(self) == *old(self),
    {
        let req = match parse_request(payload) {
            Some(req) => req,
            None => return FrameAction::Ignore,
        };
        let out = self.req_handler(&req);
        let r = match &out {
            Outcome::Reply(x) => FrameAction::Send(frame_reply(x)),
            Outcome::Reset => FrameAction::Reset,
            Outcome::Unsupported => FrameAction::Ignore,
        };
        proof {
            assert forall|m: Request, rest: Seq<u8>| #[trigger] request_then(m, rest) == payload@ implies handled_by(
                *old(self),
                *self,
                m,
                r,
            ) by {
                assert(handled(*old(self), *self, m, out));
                assert(acts_on(out, r));
            }
        }
        r
    }
}

} // verus!
