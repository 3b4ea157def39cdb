use soupstone::flash::{Flash, FlashError};
use soupstone::handoff::{HandoffRecord, HandoffState, HANDOFF_MAGIC};
use soupstone::icd::{Error, Request, Response, UnalignedFlashAddr};
use soupstone::loader::{Loader, Outcome, PEEK_MAX};
use soupstone::managed::Managed;
use soupstone::memory::Ram;

const BASE: usize = 0x2000_0000;

fn loader() -> Loader {
    let scratch = Ram::new(BASE, 1024);
    let flash = Flash::new(0, 64 * 1024, 4096, 4);
    Loader::new(scratch, flash, 16 * 1024)
}

#[test]
fn ram_region_bounds() {
    let ram = Ram::new(BASE, 1024);
    assert_eq!(ram.start_end(), (BASE, BASE + 1024));
    assert_eq!(ram.as_ptr(), BASE);
    assert_eq!(ram.contains(BASE, 1024), Ok(0));
    assert_eq!(ram.contains(BASE + 1000, 24), Ok(1000));
    let oob = Error::AddressOutOfRange { request: BASE + 1000, len: 25, min: BASE, max: BASE + 1024 };
    assert_eq!(ram.contains(BASE + 1000, 25), Err(oob));
}

#[test]
fn out_of_range_read_and_write_touch_nothing() {
    let mut ram = Ram::new(BASE, 16);
    assert_eq!(ram.write_from(BASE + 4, &[1, 2, 3]), Ok(()));
    let cases = [(BASE - 1, 2usize), (BASE + 15, 2), (BASE + 16, 1), (0, 4), (BASE + 8, 9)];
    for (addr, len) in cases {
        let mut buf = vec![0xEE; len];
        let err = Error::AddressOutOfRange { request: addr, len, min: BASE, max: BASE + 16 };
        assert_eq!(ram.read_to(addr, &mut buf), Err(err));
        assert_eq!(buf, vec![0xEE; len]);
        let before = {
            let mut all = vec![0u8; 16];
            ram.read_to(BASE, &mut all).unwrap();
            all
        };
        assert_eq!(ram.write_from(addr, &vec![0x77; len]), Err(err));
        let mut after = vec![0u8; 16];
        ram.read_to(BASE, &mut after).unwrap();
        assert_eq!(before, after);
    }
    let mut buf = [0u8; 5];
    ram.read_to(BASE + 3, &mut buf).unwrap();
    assert_eq!(buf, [0, 1, 2, 3, 0]);
}

#[test]
fn overflowing_address_is_rejected() {
    let ram = Ram::new(BASE, 16);
    let mut buf = [0u8; 1];
    let err = Error::AddressOutOfRange { request: usize::MAX, len: 1, min: BASE, max: BASE + 16 };
    assert_eq!(ram.read_to(usize::MAX, &mut buf), Err(err));
    assert_eq!(ram.contains(usize::MAX, 1), Err(err));
    let mut ram = ram;
    assert_eq!(ram.write_from(usize::MAX, &[1]), Err(err));
}

#[test]
fn handoff_record_is_observed_once() {
    let mut rec = HandoffRecord::cleared();
    assert_eq!(rec.state(), HandoffState::Idle);
    rec.write_handoff(0x2000_0400);
    assert_eq!(rec.magic, HANDOFF_MAGIC);
    assert_eq!(rec.state(), HandoffState::PendingJump(0x2000_0400));
    assert_eq!(rec.read_and_clear_handoff(), Some(0x2000_0400));
    assert_eq!(rec, HandoffRecord { magic: 0, target: 0 });
    assert_eq!(rec.read_and_clear_handoff(), None);
    assert_eq!(rec.state(), HandoffState::Idle);
}

#[test]
fn handoff_needs_the_magic_word() {
    let mut rec = HandoffRecord { magic: 0x0FAC_ADE1, target: 0x1234 };
    assert_eq!(rec.read_and_clear_handoff(), None);
}

#[test]
fn poke_then_peek() {
    let mut l = loader();
    match l.req_handler(&Request::PokeBytes { addr: BASE + 8, val: Managed::from_vec(vec![5, 6, 7]) }) {
        Outcome::Reply(Ok(Response::Poked(p))) => assert_eq!(p.addr, BASE + 8),
        _ => panic!("expected an ack"),
    }
    match l.req_handler(&Request::PeekBytes { addr: BASE + 7, len: 5 }) {
        Outcome::Reply(Ok(Response::PeekBytes(p))) => {
            assert_eq!(p.addr, BASE + 7);
            assert_eq!(p.val.as_slice(), &[0, 5, 6, 7, 0]);
        }
        _ => panic!("expected bytes"),
    }
}

#[test]
fn peek_errors() {
    let mut l = loader();
    match l.req_handler(&Request::PeekBytes { addr: BASE, len: PEEK_MAX + 1 }) {
        Outcome::Reply(Err(e)) => assert_eq!(e, Error::RangeTooLarge { request: 257, max: 256 }),
        _ => panic!("expected an error"),
    }
    match l.req_handler(&Request::PeekBytes { addr: BASE + 1020, len: 8 }) {
        Outcome::Reply(Err(e)) => assert_eq!(
            e,
            Error::AddressOutOfRange { request: BASE + 1020, len: 8, min: BASE, max: BASE + 1024 }
        ),
        _ => panic!("expected an error"),
    }
    match l.req_handler(&Request::PokeBytes { addr: 0, val: Managed::from_vec(vec![1]) }) {
        Outcome::Reply(Err(e)) => assert_eq!(
            e,
            Error::AddressOutOfRange { request: 0, len: 1, min: BASE, max: BASE + 1024 }
        ),
        _ => panic!("expected an error"),
    }
}

#[test]
fn bootload_arms_handoff_and_resets() {
    let mut l = loader();
    assert!(matches!(l.req_handler(&Request::Bootload { addr: 0x2000_0100 }), Outcome::Reset));
    assert_eq!(l.handoff.state(), HandoffState::PendingJump(0x2000_0100));
    assert_eq!(l.handoff.read_and_clear_handoff(), Some(0x2000_0100));
    assert_eq!(l.handoff.read_and_clear_handoff(), None);
}

#[test]
fn reboot_resets_and_clear_magic_is_not_served() {
    let mut l = loader();
    assert!(matches!(l.req_handler(&Request::Reboot), Outcome::Reset));
    assert_eq!(l.handoff.state(), HandoffState::Idle);
    assert!(matches!(l.req_handler(&Request::ClearMagic), Outcome::Unsupported));
}

#[test]
fn flash_copy_programs_and_pads() {
    let mut l = loader();
    let data: Vec<u8> = (0..10u8).collect();
    l.req_handler(&Request::PokeBytes { addr: BASE, val: Managed::from_vec(data.clone()) });
    let out = l.req_handler(&Request::FlashCopy { ram_start: BASE, flash_start: 16 * 1024, len: 10 });
    assert!(matches!(out, Outcome::Reply(Ok(Response::FlashCopied))));
    match l.req_handler(&Request::PeekBytesFlash { addr: 16 * 1024, len: 16 }) {
        Outcome::Reply(Ok(Response::PeekBytesFlash(p))) => {
            let mut want = data.clone();
            want.extend_from_slice(&[0xFF; 6]);
            assert_eq!(p.val.as_slice(), &want[..]);
            assert_eq!(p.addr, 16 * 1024);
        }
        _ => panic!("expected flash bytes"),
    }
}

#[test]
fn flash_copy_errors() {
    let mut l = loader();
    let cases = [
        (
            Request::FlashCopy { ram_start: 0, flash_start: 16 * 1024, len: 4 },
            Error::AddressOutOfRange { request: 0, len: 4, min: BASE, max: BASE + 1024 },
        ),
        (
            Request::FlashCopy { ram_start: BASE, flash_start: 64 * 1024, len: 4 },
            Error::AddressOutOfRange { request: 64 * 1024, len: 4, min: 0, max: 64 * 1024 },
        ),
        (
            Request::FlashCopy { ram_start: BASE, flash_start: 16 * 1024 + 4, len: 4 },
            Error::UnalignedFlashAddr(UnalignedFlashAddr { addr: 16 * 1024 + 4, align: 4096 }),
        ),
        (
            Request::FlashCopy { ram_start: BASE, flash_start: 4096, len: 4 },
            Error::CantOverwriteBootloader,
        ),
    ];
    for (req, err) in cases {
        match l.req_handler(&req) {
            Outcome::Reply(Err(e)) => assert_eq!(e, err),
            _ => panic!("expected an error"),
        }
    }
    let mut small = Loader::new(Ram::new(BASE, 1024), Flash::new(0, 6000, 4096, 4), 0);
    match small.req_handler(&Request::FlashCopy { ram_start: BASE, flash_start: 4096, len: 100 }) {
        Outcome::Reply(Err(e)) => assert_eq!(e, Error::FlashCopyFailed),
        _ => panic!("expected a failed copy"),
    }
}

#[test]
fn flash_program_across_blocks() {
    let mut f = Flash::new(0x1000, 64, 16, 4);
    let data: Vec<u8> = (1..=22u8).collect();
    assert_eq!(f.program(16, &data), Ok(()));
    let all = f.read(0, 64);
    assert_eq!(&all[0..16], &[0xFF; 16]);
    assert_eq!(&all[16..38], &data[..]);
    assert_eq!(&all[38..48], &[0xFF; 10]);
    assert_eq!(&all[48..64], &[0xFF; 16]);
    assert_eq!(f.program(8, &data), Err(FlashError::NotAligned));
    assert_eq!(f.program(48, &data), Err(FlashError::OutOfBounds));
    assert_eq!(f.program(3, &[]), Ok(()));
    assert_eq!(f.erase(0, 8), Err(FlashError::NotAligned));
    assert_eq!(f.erase(16, 80), Err(FlashError::OutOfBounds));
    assert_eq!(f.write(2, &[1, 2, 3, 4]), Err(FlashError::NotAligned));
    assert_eq!(f.write(60, &[1, 2, 3, 4, 5, 6, 7, 8]), Err(FlashError::OutOfBounds));
    assert_eq!(f.write(0, &[1, 2, 3, 4]), Ok(()));
    assert_eq!(f.read(0, 5), vec![1, 2, 3, 4, 0xFF]);
}

#[test]
fn largest_peek_at_the_end_of_the_region() {
    let mut l = loader();
    match l.req_handler(&Request::PeekBytes { addr: BASE + 1024 - PEEK_MAX, len: PEEK_MAX }) {
        Outcome::Reply(Ok(Response::PeekBytes(p))) => assert_eq!(p.val.len(), PEEK_MAX),
        _ => panic!("expected bytes"),
    }
    match l.req_handler(&Request::PeekBytes { addr: BASE + 1024, len: 0 }) {
        Outcome::Reply(Ok(Response::PeekBytes(p))) => assert_eq!(p.val.len(), 0),
        _ => panic!("expected an empty read"),
    }
}

#[test]
fn frames_drive_the_loader() {
    use_frames();
}

fn use_frames() {
    let mut l = loader();
    let wire = soupstone::codec::frame_request(&Request::Bootload { addr: 0x2000_0040 });
    let mut acc = soupstone::frame::Accumulator::new(soupstone::codec::ACC_SIZE);
    let mut actions = Vec::new();
    for payload in acc.feed_chunk(&wire).into_iter().flatten() {
        actions.push(l.handle_frame(&payload));
    }
    assert_eq!(actions.len(), 1);
    assert!(matches!(actions[0], soupstone::loader::FrameAction::Reset));
    assert_eq!(l.handoff.state(), HandoffState::PendingJump(0x2000_0040));
    let wire = soupstone::codec::frame_request(&Request::PeekBytes { addr: BASE, len: 2 });
    let payloads: Vec<Vec<u8>> = acc.feed_chunk(&wire).into_iter().flatten().collect();
    match l.handle_frame(&payloads[0]) {
        soupstone::loader::FrameAction::Send(bytes) => {
            let mut host = soupstone::frame::Accumulator::new(soupstone::codec::ACC_SIZE);
            let replies: Vec<Vec<u8>> = host.feed_chunk(&bytes).into_iter().flatten().collect();
            match soupstone::codec::parse_reply(&replies[0]) {
                Some(Ok(Response::PeekBytes(p))) => assert_eq!(p.val.as_slice(), &[0, 0]),
                _ => panic!("expected bytes"),
            }
        }
        _ => panic!("expected a reply"),
    }
    assert!(matches!(l.handle_frame(&[0x42]), soupstone::loader::FrameAction::Ignore));
}

#[test]
fn managed_conversions() {
    let owned: Managed<'static> = Managed::from(vec![1u8, 2]);
    assert!(matches!(owned, Managed::Owned(_)));
    let bytes = [3u8];
    let borrowed: Managed<'_> = Managed::from(&bytes[..]);
    assert!(matches!(borrowed, Managed::Borrowed(_)));
    assert_eq!(borrowed.as_slice(), &[3]);
}
