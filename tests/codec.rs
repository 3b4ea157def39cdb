use soupstone::codec::{frame_reply, frame_request, parse_reply, parse_request, ACC_SIZE};
use soupstone::frame::{frame, Accumulator, FeedResult};
use soupstone::icd::{Error, PeekBytes, Poked, Request, Response, UnalignedFlashAddr};
use soupstone::managed::Managed;
use soupstone::wire::{decode_reply, decode_request, encode_reply, encode_request};

fn feed_all(acc: &mut Accumulator, bytes: &[u8]) -> Vec<Option<Vec<u8>>> {
    acc.feed_chunk(bytes)
}

fn frames_of(events: Vec<Option<Vec<u8>>>) -> Vec<Vec<u8>> {
    events.into_iter().flatten().collect()
}

fn all_requests() -> Vec<Request<'static>> {
    vec![
        Request::PeekBytes { addr: 0x2000_0000, len: 256 },
        Request::PokeBytes { addr: 0x2000_0100, val: Managed::from_vec(vec![0, 1, 2, 0, 255]) },
        Request::ClearMagic,
        Request::Reboot,
        Request::Bootload { addr: 0x2000_0000 },
        Request::PeekBytesFlash { addr: 0x1000, len: 17 },
        Request::FlashCopy { ram_start: 0x2000_0000, flash_start: 0x8000, len: 1000 },
    ]
}

fn same_request(a: &Request, b: &Request) -> bool {
    match (a, b) {
        (Request::PeekBytes { addr: a1, len: l1 }, Request::PeekBytes { addr: a2, len: l2 }) => {
            a1 == a2 && l1 == l2
        }
        (Request::PokeBytes { addr: a1, val: v1 }, Request::PokeBytes { addr: a2, val: v2 }) => {
            a1 == a2 && v1.as_slice() == v2.as_slice()
        }
        (Request::ClearMagic, Request::ClearMagic) => true,
        (Request::Reboot, Request::Reboot) => true,
        (Request::Bootload { addr: a1 }, Request::Bootload { addr: a2 }) => a1 == a2,
        (
            Request::PeekBytesFlash { addr: a1, len: l1 },
            Request::PeekBytesFlash { addr: a2, len: l2 },
        ) => a1 == a2 && l1 == l2,
        (
            Request::FlashCopy { ram_start: r1, flash_start: f1, len: l1 },
            Request::FlashCopy { ram_start: r2, flash_start: f2, len: l2 },
        ) => r1 == r2 && f1 == f2 && l1 == l2,
        _ => false,
    }
}

#[test]
fn request_round_trip_through_frames() {
    for m in all_requests() {
        let wire = frame_request(&m);
        let mut acc = Accumulator::new(ACC_SIZE);
        let frames = frames_of(feed_all(&mut acc, &wire));
        assert_eq!(frames.len(), 1);
        let back = parse_request(&frames[0]).expect("decodes");
        assert!(same_request(&back, &m));
    }
}

#[test]
fn reply_round_trip_through_frames() {
    let replies: Vec<Result<Response<'static>, Error>> = vec![
        Ok(Response::PeekBytes(PeekBytes { addr: 5, val: Managed::from_vec(vec![9, 0, 8]) })),
        Ok(Response::Poked(Poked { addr: 0x2000_0000 })),
        Ok(Response::MagicCleared),
        Ok(Response::PeekBytesFlash(PeekBytes { addr: 7, val: Managed::from_vec(vec![]) })),
        Ok(Response::FlashCopied),
        Err(Error::AddressOutOfRange { request: 1, len: 2, min: 3, max: 4 }),
        Err(Error::RangeTooLarge { request: 300, max: 256 }),
        Err(Error::UnalignedFlashAddr(UnalignedFlashAddr { addr: 10, align: 4096 })),
        Err(Error::CantOverwriteBootloader),
        Err(Error::FlashCopyFailed),
    ];
    for m in replies {
        let wire = frame_reply(&m);
        let mut acc = Accumulator::new(ACC_SIZE);
        let frames = frames_of(feed_all(&mut acc, &wire));
        assert_eq!(frames.len(), 1);
        let back = parse_reply(&frames[0]).expect("decodes");
        assert_eq!(encode_reply(&back), encode_reply(&m));
        match (&back, &m) {
            (Ok(Response::PeekBytes(a)), Ok(Response::PeekBytes(b))) => {
                assert_eq!(a.addr, b.addr);
                assert_eq!(a.val.as_slice(), b.val.as_slice());
            }
            (Err(a), Err(b)) => assert_eq!(a, b),
            _ => {}
        }
    }
}

#[test]
fn integers_are_varints() {
    let bytes = encode_request(&Request::PeekBytes { addr: 300, len: 1 });
    assert_eq!(bytes, vec![0x00, 0xAC, 0x02, 0x01]);
    let bytes = encode_request(&Request::Bootload { addr: 0x2000_0000 });
    assert_eq!(bytes, vec![0x04, 0x80, 0x80, 0x80, 0x80, 0x02]);
    let bytes = encode_request(&Request::PokeBytes { addr: 1, val: Managed::from_vec(vec![7, 8]) });
    assert_eq!(bytes, vec![0x01, 0x01, 0x02, 7, 8]);
}

#[test]
fn decoding_reads_varints_and_hands_back_the_rest() {
    let (m, rest) = decode_request(&[0x00, 0xAC, 0x02, 0x01, 0x55]).expect("decodes");
    assert!(same_request(&m, &Request::PeekBytes { addr: 300, len: 1 }));
    assert_eq!(rest, &[0x55]);
    let (r, rest) = decode_reply(&[0x01, 0x03]).expect("decodes");
    assert!(matches!(r, Err(Error::CantOverwriteBootloader)));
    assert!(rest.is_empty());
}

#[test]
fn malformed_payloads_do_not_decode() {
    assert!(parse_request(&[]).is_none());
    assert!(parse_request(&[9]).is_none());
    assert!(parse_request(&[0x01, 0x01, 0x05, 1, 2]).is_none());
    assert!(parse_reply(&[2]).is_none());
}

#[test]
fn frames_are_stuffed_between_zero_delimiters() {
    assert_eq!(frame(&[0x11, 0x00, 0x22]), vec![0x00, 0x02, 0x11, 0x02, 0x22, 0x00]);
    assert_eq!(frame(&[]), vec![0x00, 0x01, 0x00]);
}

#[test]
fn accumulator_unstuffs_a_frame_split_across_chunks() {
    let mut acc = Accumulator::new(64);
    assert!(matches!(acc.feed(&[0x02, 0x11]), FeedResult::Consumed));
    match acc.feed(&[0x02, 0x22, 0x00, 0x99]) {
        FeedResult::Success { data, remaining } => {
            assert_eq!(data, vec![0x11, 0x00, 0x22]);
            assert_eq!(remaining, &[0x99]);
        }
        _ => panic!("expected a frame"),
    }
}

#[test]
fn accumulator_reports_overfull_and_malformed_frames() {
    let mut acc = Accumulator::new(4);
    match acc.feed(&[1, 2, 3, 4, 5, 6]) {
        FeedResult::OverFull(rest) => assert_eq!(rest, &[5, 6]),
        _ => panic!("expected overflow"),
    }
    let mut acc = Accumulator::new(4);
    match acc.feed(&[1, 2, 3, 4, 5, 0, 7]) {
        FeedResult::OverFull(rest) => assert_eq!(rest, &[7]),
        _ => panic!("expected overflow"),
    }
    let mut acc = Accumulator::new(16);
    match acc.feed(&[0x05, 0x11, 0x00, 0x42]) {
        FeedResult::DeserError(rest) => assert_eq!(rest, &[0x42]),
        _ => panic!("expected a malformed frame"),
    }
    let mut acc = Accumulator::new(16);
    assert!(matches!(acc.feed(&[]), FeedResult::Consumed));
}

#[test]
fn corrupted_frame_then_valid_frame_yields_only_the_valid_one() {
    let valid = Request::PeekBytes { addr: 0x2000_0010, len: 4 };
    let good = frame_request(&valid);
    let corrupt_sources = vec![
        vec![0x00, 0x07, 0x01, 0x00],
        vec![0x00, 0x03, 0x00, 0x05],
        vec![0xFF, 0xFF, 0xFF],
        vec![0x00],
        vec![0x13; 700],
    ];
    for junk in corrupt_sources {
        let mut stream = junk.clone();
        stream.extend_from_slice(&good);
        let mut acc = Accumulator::new(ACC_SIZE);
        let decoded: Vec<Request> = frames_of(feed_all(&mut acc, &stream))
            .iter()
            .filter_map(|p| parse_request(p))
            .collect();
        assert_eq!(decoded.len(), 1);
        assert!(same_request(&decoded[0], &valid));
    }
}

#[test]
fn corrupting_any_byte_of_a_frame_still_resyncs() {
    let first = frame_request(&Request::PokeBytes {
        addr: 0x2000_0000,
        val: Managed::from_vec(vec![1, 2, 3, 4, 5, 6]),
    });
    let valid = Request::Bootload { addr: 0x2000_0400 };
    let good = frame_request(&valid);
    for pos in 1..first.len() - 1 {
        let mut junk = first.clone();
        junk[pos] = 0x00;
        let mut stream = junk;
        stream.extend_from_slice(&good);
        let mut acc = Accumulator::new(ACC_SIZE);
        let decoded: Vec<Request> = frames_of(feed_all(&mut acc, &stream))
            .iter()
            .filter_map(|p| parse_request(p))
            .collect();
        assert!(!decoded.is_empty());
        assert!(same_request(decoded.last().unwrap(), &valid));
    }
}

#[test]
fn borrowed_and_owned_buffers_compare_by_content() {
    let bytes = [1u8, 2, 3];
    let a = Managed::from_borrowed(&bytes);
    let b = Managed::from_vec(vec![1, 2, 3]);
    assert!(a == b);
    assert!(a != Managed::from_vec(vec![1, 2]));
    assert_eq!(a.to_owned().as_slice(), &[1, 2, 3]);
    assert_eq!(b.len(), 3);
}

#[test]
fn a_framed_message_leaves_the_accumulator_as_one_frame() {
    let m = Request::PokeBytes { addr: 0x2000_0000, val: Managed::from_vec(vec![0; 300]) };
    let wire = frame_request(&m);
    let mut acc = Accumulator::new(ACC_SIZE);
    let events = acc.feed_chunk(&wire);
    assert_eq!(events.len(), 2);
    assert!(events[0].is_none());
    assert_eq!(events[1].as_ref().unwrap(), &encode_request(&m));
    assert!(same_request(&parse_request(events[1].as_ref().unwrap()).unwrap(), &m));
}

#[test]
fn corrupted_frame_then_guard_then_valid_frame() {
    let valid = Request::PeekBytes { addr: 0x2000_0010, len: 4 };
    let mut stream = vec![0x04, 0x11, 0x22, 0x00];
    stream.extend_from_slice(&frame_request(&valid));
    let mut acc = Accumulator::new(ACC_SIZE);
    let events = acc.feed_chunk(&stream);
    assert_eq!(events.len(), 3);
    assert!(events[0].is_none());
    assert!(events[1].is_none());
    assert!(same_request(&parse_request(events[2].as_ref().unwrap()).unwrap(), &valid));
}

#[test]
fn trailing_bytes_after_a_message_are_ignored() {
    let mut payload = encode_request(&Request::Reboot);
    payload.extend_from_slice(&[1, 2, 3]);
    assert!(matches!(parse_request(&payload), Some(Request::Reboot)));
}
