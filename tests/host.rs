use soupstone::cli::{bootload_request, flash_copy_request, Address, RAM_ORIGIN};
use soupstone::codec::{frame_reply, frame_to_soup, parse_from_soup, parse_reply, parse_to_soup, ACC_SIZE};
use soupstone::discovery::{
    classify, connect_step, contains_bytes, find_by_serial, find_port, port_kind_of, ConnectAction, FindError,
    PortInfo, PortKind,
};
use soupstone::elf::{assemble, LoadError, MemoryRange, Segment};
use soupstone::frame::Accumulator;
use soupstone::icd::{Error, PeekBytes, Poked, Request, Response};
use soupstone::managed::Managed;
use soupstone::soup_icd::{Control, FromSoup, ToSoup};
use soupstone::stdio::{stderr, stdin, stdout, Stderr, Stdin, Stdout};
use soupstone::transfer::{plan, ReplyEffect, Transfer, CHUNK_SZ};

fn port(name: &str, product: Option<&str>) -> PortInfo {
    PortInfo {
        name: name.to_string(),
        product: product.map(|p| p.to_string()),
        serial_number: None,
    }
}

#[test]
fn loader_found_by_serial_number() {
    let mut a = port("/dev/ttyACM0", Some("Other"));
    a.serial_number = Some("87654321".to_string());
    let mut b = port("/dev/ttyACM1", Some("Stage0_Loader"));
    b.serial_number = Some("12345678".to_string());
    let mut c = port("/dev/ttyACM2", None);
    c.serial_number = Some("12345678".to_string());
    assert_eq!(find_by_serial(&vec![a, b, c]), Some(1));
    assert_eq!(find_by_serial(&vec![port("x", None)]), None);
}

#[test]
fn poke_of_1000_bytes_takes_four_chunks() {
    let base = 0x2000_0000usize;
    let chunks = plan(base, 1000);
    assert_eq!(
        chunks,
        vec![(base, 256), (base + 256, 256), (base + 512, 256), (base + 768, 232)]
    );
    assert_eq!(plan(base, 0), vec![]);
    assert_eq!(plan(base, 512), vec![(base, 256), (base + 256, 256)]);
    assert_eq!(CHUNK_SZ, 256);

    let data: Vec<u8> = (0..1000u32).map(|i| (i % 251) as u8).collect();
    let mut t = Transfer::new_poke(base, data.clone());
    let mut sent = Vec::new();
    loop {
        let (i, addr, bytes) = match t.next_request() {
            Some((i, Request::PokeBytes { addr, val })) => (i, addr, val.as_slice().to_vec()),
            None => break,
            _ => panic!("expected a poke"),
        };
        assert_eq!(&bytes[..], &data[i * 256..(i * 256 + bytes.len())]);
        sent.push((addr, bytes.len()));
        assert!(t.on_response(&Response::Poked(Poked { addr })));
    }
    assert_eq!(sent, chunks);
    assert!(t.is_complete());
}

#[test]
fn acks_must_echo_a_chunk_address() {
    let base = 0x2000_0000usize;
    let mut t = Transfer::new_poke(base, vec![1u8; 1000]);
    assert!(!t.on_response(&Response::Poked(Poked { addr: base + 1 })));
    assert!(!t.on_response(&Response::Poked(Poked { addr: base + 1024 })));
    assert!(!t.on_response(&Response::FlashCopied));
    assert_eq!(t.next_request().map(|(i, _)| i), Some(0));
    assert!(t.on_response(&Response::Poked(Poked { addr: base })));
    assert!(!t.on_response(&Response::Poked(Poked { addr: base })));
    assert_eq!(t.next_request().map(|(i, _)| i), Some(1));
}

#[test]
fn interleaved_replies_reassemble_by_address() {
    let base = 0x1000usize;
    let image: Vec<u8> = (0..1000u32).map(|i| (i * 7 % 256) as u8).collect();
    let reply = |i: usize| {
        let start = i * 256;
        let end = std::cmp::min(start + 256, 1000);
        Response::PeekBytes(PeekBytes {
            addr: base + start,
            val: Managed::from_vec(image[start..end].to_vec()),
        })
    };
    let mut t = Transfer::new_peek(base, 1000, false);
    let mut requested = Vec::new();
    while let Some(i) = t.next_request().map(|(i, _)| i) {
        requested.push(i);
        assert!(!t.on_response(&Response::Poked(Poked { addr: base + i * 256 })));
        assert!(!t.on_response(&Response::PeekBytes(PeekBytes {
            addr: base + i * 256,
            val: Managed::from_vec(vec![0; 10]),
        })));
        for other in [3usize, 2, 1, 0] {
            if other != i {
                assert!(!t.on_response(&reply(other)));
            }
        }
        assert!(t.on_response(&reply(i)));
    }
    assert_eq!(requested, vec![0, 1, 2, 3]);
    assert!(t.is_complete());
    assert_eq!(t.data_slice(), &image[..]);
}

#[test]
fn reply_for_a_chunk_not_in_flight_is_dropped() {
    let base = 0x1000usize;
    let mut t = Transfer::new_peek(base, 512, false);
    let later = Response::PeekBytes(PeekBytes { addr: base + 256, val: Managed::from_vec(vec![9; 256]) });
    assert_eq!(t.on_reply(&Ok(later)), ReplyEffect::Dropped);
    assert_eq!(t.next_request().map(|(i, _)| i), Some(0));
    assert_eq!(t.data_slice(), &[0u8; 512][..]);
    let mut w = Transfer::new_poke(base, vec![1u8; 600]);
    assert!(!w.on_response(&Response::Poked(Poked { addr: base + 512 })));
    assert!(!w.on_response(&Response::Poked(Poked { addr: base + 256 })));
    assert!(!w.is_complete());
    assert_eq!(w.next_request().map(|(i, _)| i), Some(0));
}

#[test]
fn peek_requests_carry_chunk_address_and_length() {
    let mut t = Transfer::new_peek(0x100, 300, true);
    match t.next_request() {
        Some((0, Request::PeekBytesFlash { addr, len })) => {
            assert_eq!((addr, len), (0x100, 256))
        }
        _ => panic!("expected a flash peek"),
    }
    let first = Response::PeekBytesFlash(PeekBytes { addr: 0x100, val: Managed::from_vec(vec![1; 256]) });
    assert_eq!(t.on_reply(&Ok(first)), ReplyEffect::Taken);
    match t.next_request() {
        Some((1, Request::PeekBytesFlash { addr, len })) => assert_eq!((addr, len), (0x200, 44)),
        _ => panic!("expected a flash peek"),
    }
    assert_eq!(t.on_reply(&Ok(Response::MagicCleared)), ReplyEffect::Dropped);
    let err = Error::RangeTooLarge { request: 300, max: 256 };
    assert_eq!(t.on_reply(&Err(err)), ReplyEffect::Failed(err));
}

#[test]
fn host_reads_replies_from_a_byte_stream() {
    let mut stream = frame_reply(&Ok(Response::Poked(Poked { addr: 4 })));
    stream.extend(frame_reply(&Err(Error::CantOverwriteBootloader)));
    let mut acc = Accumulator::new(ACC_SIZE);
    let mut got = Vec::new();
    for piece in stream.chunks(3) {
        for ev in acc.feed_chunk(piece) {
            if let Some(p) = ev {
                if let Some(r) = parse_reply(&p) {
                    got.push(r);
                }
            }
        }
    }
    assert_eq!(got.len(), 2);
    assert!(matches!(got[0], Ok(Response::Poked(Poked { addr: 4 }))));
    assert!(matches!(got[1], Err(Error::CantOverwriteBootloader)));
}

#[test]
fn two_matching_devices_are_ambiguous() {
    let ports = vec![
        port("/dev/ttyACM0", Some("Stage0_Loader")),
        port("/dev/ttyS0", None),
        port("/dev/ttyACM1", Some("Stage0_Loader")),
    ];
    match find_port(&ports) {
        Err(FindError::TooManyFound(names)) => {
            assert_eq!(names, vec!["/dev/ttyACM0".to_string(), "/dev/ttyACM1".to_string()])
        }
        _ => panic!("expected an ambiguity error"),
    }
    let ports = vec![
        port("/dev/ttyACM3", Some("My_Soup_App v2")),
        port("/dev/ttyACM4", Some("Stage0_Loader")),
    ];
    assert!(matches!(find_port(&ports), Err(FindError::TooManyFound(n)) if n.len() == 2));
}

#[test]
fn discovery_finds_one_or_none() {
    let ports = vec![port("/dev/ttyS0", Some("Keyboard")), port("/dev/ttyACM2", Some("Soup_App"))];
    assert!(matches!(find_port(&ports), Ok((PortKind::SoupApp, 1))));
    let ports = vec![port("/dev/ttyS0", Some("Stage0 Loader")), port("COM1", None)];
    assert!(matches!(find_port(&ports), Err(FindError::NoneFound)));
    assert!(matches!(find_port(&vec![]), Err(FindError::NoneFound)));
}

#[test]
fn product_strings_classify() {
    assert_eq!(classify("Stage0_Loader"), Some(PortKind::Stage0));
    assert_eq!(classify("Stage0_Loader2"), None);
    assert_eq!(classify("Soup_App"), Some(PortKind::SoupApp));
    assert_eq!(classify("xx Soup_App yy"), Some(PortKind::SoupApp));
    assert_eq!(classify("Soup App"), None);
    assert_eq!(classify(""), None);
    assert_eq!(port_kind_of(&port("a", None)), None);
    assert!(contains_bytes(b"abcdef", b"cde"));
    assert!(contains_bytes(b"abc", b""));
    assert!(!contains_bytes(b"ab", b"abc"));
}

#[test]
fn connect_decisions() {
    assert_eq!(connect_step(PortKind::Stage0, None, Ok(PortKind::Stage0)).0, ConnectAction::Use);
    assert_eq!(connect_step(PortKind::SoupApp, None, Ok(PortKind::SoupApp)).0, ConnectAction::Use);
    assert_eq!(connect_step(PortKind::Stage0, None, Ok(PortKind::SoupApp)).0, ConnectAction::RebootToLoader);
    assert_eq!(connect_step(PortKind::SoupApp, None, Ok(PortKind::Stage0)).0, ConnectAction::NoApplication);
    let (a, last) = connect_step(PortKind::Stage0, None, Err(FindError::NoneFound));
    assert_eq!(a, ConnectAction::Wait { report: true });
    let (a, last) = connect_step(PortKind::Stage0, last, Err(FindError::NoneFound));
    assert_eq!(a, ConnectAction::Wait { report: false });
    let two = vec!["a".to_string(), "b".to_string()];
    let (a, last) = connect_step(PortKind::Stage0, last, Err(FindError::TooManyFound(two.clone())));
    assert_eq!(a, ConnectAction::Wait { report: true });
    let (a, last) = connect_step(PortKind::Stage0, last, Err(FindError::TooManyFound(two)));
    assert_eq!(a, ConnectAction::Wait { report: false });
    let three = vec!["a".to_string(), "b".to_string(), "c".to_string()];
    let (a, last) = connect_step(PortKind::Stage0, last, Err(FindError::TooManyFound(three)));
    assert_eq!(a, ConnectAction::Wait { report: true });
    let (a, last) = connect_step(PortKind::Stage0, last, Err(FindError::Other("gone".to_string())));
    assert_eq!(a, ConnectAction::Failed);
    assert!(matches!(last, Some(FindError::Other(e)) if e == "gone"));
}

#[test]
fn command_requests() {
    match flash_copy_request(Address(0x8000), 77) {
        Request::FlashCopy { ram_start, flash_start, len } => {
            assert_eq!((ram_start, flash_start, len), (RAM_ORIGIN, 0x8000, 77))
        }
        _ => panic!("expected a flash copy"),
    }
    assert!(matches!(bootload_request(Address(0x2000_0000)), Request::Bootload { addr: 0x2000_0000 }));
}

#[test]
fn console_frames_round_trip() {
    assert_eq!(stdout(), Stdout);
    assert_eq!(stderr(), Stderr);
    assert_eq!(stdin(), Stdin);
    let mut acc = Accumulator::new(ACC_SIZE);
    let mut stream = stdout().frame(b"hello\n");
    stream.extend(stderr().frame(b"oops"));
    let payloads: Vec<Vec<u8>> = acc.feed_chunk(&stream).into_iter().flatten().collect();
    assert_eq!(payloads.len(), 2);
    match parse_from_soup(&payloads[0]) {
        Some(FromSoup::Stdout(m)) => assert_eq!(m.as_slice(), b"hello\n"),
        _ => panic!("expected stdout"),
    }
    match parse_from_soup(&payloads[1]) {
        Some(FromSoup::Stderr(m)) => assert_eq!(m.as_slice(), b"oops"),
        _ => panic!("expected stderr"),
    }
    let input = stdin().frame(b"ls");
    let payloads: Vec<Vec<u8>> = acc.feed_chunk(&input).into_iter().flatten().collect();
    match parse_to_soup(&payloads[0]) {
        Some(ToSoup::Stdin(m)) => assert_eq!(m.as_slice(), b"ls"),
        _ => panic!("expected stdin"),
    }
    let reboot = frame_to_soup(&ToSoup::Control(Control::Reboot));
    assert_eq!(reboot, vec![0x00, 0x02, 0x01, 0x01, 0x00]);
    let payloads: Vec<Vec<u8>> = acc.feed_chunk(&reboot).into_iter().flatten().collect();
    assert!(matches!(parse_to_soup(&payloads[0]), Some(ToSoup::Control(Control::Reboot))));
}

#[test]
fn image_is_laid_out_by_address() {
    let segs = vec![
        Segment { paddr: 0x100, data: vec![1, 2, 3] },
        Segment { paddr: 0x108, data: vec![9] },
        Segment { paddr: 0x101, data: vec![7] },
    ];
    let l = assemble(&segs).ok().expect("an image");
    assert_eq!(l.addr, 0x100);
    assert_eq!(l.data, vec![1, 7, 3, 0, 0, 0, 0, 0, 9]);
    assert_eq!(assemble(&vec![]).err(), Some(LoadError::NoSections));
    assert_eq!(
        assemble(&vec![Segment { paddr: 4, data: vec![] }]).err(),
        Some(LoadError::EmptyImage)
    );
}

#[test]
fn range_relations() {
    let r = 10u64..20;
    assert!(r.contains_range(&(10..20)));
    assert!(r.contains_range(&(12..13)));
    assert!(!r.contains_range(&(15..21)));
    assert!(!r.contains_range(&(0..0)));
    assert!(r.intersects_range(&(15..25)));
    assert!(r.intersects_range(&(5..11)));
    assert!(r.intersects_range(&(0..100)));
    assert!(!r.intersects_range(&(20..30)));
    assert!(!r.intersects_range(&(0..0)));
}

#[test]
fn application_actions() {
    use_actions();
}

fn use_actions() {
    let reboot = ToSoup::Control(Control::Reboot);
    assert!(matches!(soupstone::soup_icd::app_action(&reboot), soupstone::soup_icd::AppAction::Reset));
    let info = ToSoup::Control(Control::SendAppInfo);
    assert!(matches!(soupstone::soup_icd::app_action(&info), soupstone::soup_icd::AppAction::Ignore));
    let input = ToSoup::Stdin(Managed::from_vec(vec![b'x']));
    match soupstone::soup_icd::app_action(&input) {
        soupstone::soup_icd::AppAction::ForwardStdin(b) => assert_eq!(b, b"x"),
        _ => panic!("expected input"),
    }
    let other = ToSoup::ToApp(Managed::from_vec(vec![]));
    assert!(matches!(soupstone::soup_icd::app_action(&other), soupstone::soup_icd::AppAction::Unsupported));
}
