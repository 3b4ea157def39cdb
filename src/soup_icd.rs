//! The messages exchanged between the host and the application: console
//! traffic, control requests, and their wire encoding.

use vstd::prelude::*;
use crate::managed::Managed;
use crate::wire::{
    blob_then, lemma_blob_prefix, lemma_varint_prefix, put_blob, put_varint, take_blob,
    take_varint, varint_bytes,
};

verus! {

/// A control request to the application.
#[derive(PartialEq, Eq, Structural, Clone, Copy, Debug)]
pub enum Control {
    /// Reset the device (into the loader).
    Reboot,
    /// Describe the running application.
    SendAppInfo,
}

/// A reply to a control request.
pub enum ControlResponse<'a> {
    AppInfo(Managed<'a>),
}

/// An error reported by the application.
pub enum Error<'a> {
    Other(Managed<'a>),
    InvalidMessage,
}

/// A message from the host to the application.
pub enum ToSoup<'a> {
    Stdin(Managed<'a>),
    Control(Control),
    ToApp(Managed<'a>),
}

/// A message from the application to the host.
pub enum FromSoup<'a> {
    Stdout(Managed<'a>),
    Stderr(Managed<'a>),
    ControlResponse(ControlResponse<'a>),
    FromApp(Managed<'a>),
    Error(Error<'a>),
}

/// Whether two messages to the application carry the same values.
pub open spec fn same_to_soup(a: ToSoup, b: ToSoup) -> bool {
    match (a, b) {
        (ToSoup::Stdin(x), ToSoup::Stdin(y)) => x@ == y@,
        (ToSoup::Control(x), ToSoup::Control(y)) => x == y,
        (ToSoup::ToApp(x), ToSoup::ToApp(y)) => x@ == y@,
        _ => false,
    }
}

/// Whether two messages from the application carry the same values.
pub open spec fn same_from_soup(a: FromSoup, b: FromSoup) -> bool {
    match (a, b) {
        (FromSoup::Stdout(x), FromSoup::Stdout(y)) => x@ == y@,
        (FromSoup::Stderr(x), FromSoup::Stderr(y)) => x@ == y@,
        (
            FromSoup::ControlResponse(ControlResponse::AppInfo(x)),
            FromSoup::ControlResponse(ControlResponse::AppInfo(y)),
        ) => x@ == y@,
        (FromSoup::FromApp(x), FromSoup::FromApp(y)) => x@ == y@,
        (FromSoup::Error(Error::Other(x)), FromSoup::Error(Error::Other(y))) => x@ == y@,
        (FromSoup::Error(Error::InvalidMessage), FromSoup::Error(Error::InvalidMessage)) => true,
        _ => false,
    }
}

/// The variant index of a control request.
pub open spec fn control_tag(c: Control) -> nat {
    match c {
        Control::Reboot => 0,
        Control::SendAppInfo => 1,
    }
}

/// The encoding of a message to the application, followed by `rest`.
pub open spec fn to_soup_then(m: ToSoup, rest: Seq<u8>) -> Seq<u8> {
    match m {
        ToSoup::Stdin(x) => varint_bytes(0) + blob_then(x@, rest),
        ToSoup::Control(c) => varint_bytes(1) + (varint_bytes(control_tag(c)) + rest),
        ToSoup::ToApp(x) => varint_bytes(2) + blob_then(x@, rest),
    }
}

/// The encoding of a message to the application.
pub open spec fn to_soup_bytes(m: ToSoup) -> Seq<u8> {
    to_soup_then(m, Seq::empty())
}

/// The encoding of a message from the application, followed by `rest`.
pub open spec fn from_soup_then(m: FromSoup, rest: Seq<u8>) -> Seq<u8> {
    match m {
        FromSoup::Stdout(x) => varint_bytes(0) + blob_then(x@, rest),
        FromSoup::Stderr(x) => varint_bytes(1) + blob_then(x@, rest),
        FromSoup::ControlResponse(ControlResponse::AppInfo(x)) => varint_bytes(2) + (varint_bytes(
            0,
        ) + blob_then(x@, rest)),
        FromSoup::FromApp(x) => varint_bytes(3) + blob_then(x@, rest),
        FromSoup::Error(Error::Other(x)) => varint_bytes(4) + (varint_bytes(0) + blob_then(
            x@,
            rest,
        )),
        FromSoup::Error(Error::InvalidMessage) => varint_bytes(4) + (varint_bytes(1) + rest),
    }
}

/// The encoding of a message from the application.
pub open spec fn from_soup_bytes(m: FromSoup) -> Seq<u8> {
    from_soup_then(m, Seq::empty())
}

/// Encodes a message to the application.
pub fn encode_to_soup(m: &ToSoup) -> (r: Vec<u8>)
    ensures
        r@ == to_soup_bytes(*m),
{
    let mut out: Vec<u8> = Vec::new();
    match m {
        ToSoup::Stdin(x) => {
            put_varint(&mut out, 0);
            put_blob(&mut out, x.as_slice());
        },
        ToSoup::Control(c) => {
            put_varint(&mut out, 1);
            match c {
                Control::Reboot => put_varint(&mut out, 0),
                Control::SendAppInfo => put_varint(&mut out, 1),
            }
        },
        ToSoup::ToApp(x) => {
            put_varint(&mut out, 2);
            put_blob(&mut out, x.as_slice());
        },
    }
    assert(out@ =~= to_soup_bytes(*m));
    out
}

/// Encodes a message from the application.
pub fn encode_from_soup(m: &FromSoup) -> (r: Vec<u8>)
    ensures
        r@ == from_soup_bytes(*m),
{
    let mut out: Vec<u8> = Vec::new();
    match m {
        FromSoup::Stdout(x) => {
            put_varint(&mut out, 0);
            put_blob(&mut out, x.as_slice());
        },
        FromSoup::Stderr(x) => {
            put_varint(&mut out, 1);
            put_blob(&mut out, x.as_slice());
        },
        FromSoup::ControlResponse(ControlResponse::AppInfo(x)) => {
            put_varint(&mut out, 2);
            put_varint(&mut out, 0);
            put_blob(&mut out, x.as_slice());
        },
        FromSoup::FromApp(x) => {
            put_varint(&mut out, 3);
            put_blob(&mut out, x.as_slice());
        },
        FromSoup::Error(Error::Other(x)) => {
            put_varint(&mut out, 4);
            put_varint(&mut out, 0);
            put_blob(&mut out, x.as_slice());
        },
        FromSoup::Error(Error::InvalidMessage) => {
            put_varint(&mut out, 4);
            put_varint(&mut out, 1);
        },
    }
    assert(out@ =~= from_soup_bytes(*m));
    out
}

/// Decodes a message to the application from the front of `b`; payloads are
/// copied out.
pub fn decode_to_soup(b: &[u8]) -> (r: Option<ToSoup<'static>>)
    ensures
        forall|m: ToSoup, rest: Seq<u8>|
            #[trigger] to_soup_then(m, rest) == b@ ==> (r matches Some(d) && same_to_soup(d, m)),
{
    let (tag, b1) = match take_varint(b) {
        Some(x) => x,
        None => return None,
    };
    if tag == 1 {
        let (c, _) = match take_varint(b1) {
            Some(x) => x,
            None => return None,
        };
        if c == 0 {
            Some(ToSoup::Control(Control::Reboot))
        } else if c == 1 {
            Some(ToSoup::Control(Control::SendAppInfo))
        } else {
            None
        }
    } else if tag == 0 || tag == 2 {
        let (x, _) = match take_blob(b1) {
            Some(x) => x,
            None => return None,
        };
        let val = Managed::from_borrowed(x).to_owned();
        if tag == 0 {
            Some(ToSoup::Stdin(val))
        } else {
            Some(ToSoup::ToApp(val))
        }
    } else {
        None
    }
}

/// Decodes a message from the application from the front of `b`; payloads
/// are copied out.
pub fn decode_from_soup(b: &[u8]) -> (r: Option<FromSoup<'static>>)
    ensures
        forall|m: FromSoup, rest: Seq<u8>|
            #[trigger] from_soup_then(m, rest) == b@ ==> (r matches Some(d) && same_from_soup(d, m)),
{
    let (tag, b1) = match take_varint(b) {
        Some(x) => x,
        None => return None,
    };
    if tag == 0 || tag == 1 || tag == 3 {
        let (x, _) = match take_blob(b1) {
            Some(x) => x,
            None => return None,
        };
        let val = Managed::from_borrowed(x).to_owned();
        if tag == 0 {
            Some(FromSoup::Stdout(val))
        } else if tag == 1 {
            Some(FromSoup::Stderr(val))
        } else {
            Some(FromSoup::FromApp(val))
        }
    } else if tag == 2 || tag == 4 {
        let (sub, b2) = match take_varint(b1) {
            Some(x) => x,
            None => return None,
        };
        if tag == 4 && sub == 1 {
            return Some(FromSoup::Error(Error::InvalidMessage));
        }
        if sub != 0 {
            return None;
        }
        let (x, _) = match take_blob(b2) {
            Some(x) => x,
            None => return None,
        };
        let val = Managed::from_borrowed(x).to_owned();
        if tag == 2 {
            Some(FromSoup::ControlResponse(ControlResponse::AppInfo(val)))
        } else {
            Some(FromSoup::Error(Error::Other(val)))
        }
    } else {
        None
    }
}

/// Messages to the application are uniquely decodable: an encoded message
/// followed by anything determines the message and what follows it.
pub proof fn lemma_to_soup_round_trip(m1: ToSoup, m2: ToSoup, r1: Seq<u8>, r2: Seq<u8>)
    requires
        to_soup_then(m1, r1) == to_soup_then(m2, r2),
    ensures
        same_to_soup(m1, m2),
        r1 == r2,
{
    match (m1, m2) {
        (ToSoup::Stdin(x), ToSoup::Stdin(y)) => {
            lemma_varint_prefix(0, 0, blob_then(x@, r1), blob_then(y@, r2));
            lemma_blob_prefix(x@, y@, r1, r2);
        },
        (ToSoup::ToApp(x), ToSoup::ToApp(y)) => {
            lemma_varint_prefix(2, 2, blob_then(x@, r1), blob_then(y@, r2));
            lemma_blob_prefix(x@, y@, r1, r2);
        },
        (ToSoup::Control(x), ToSoup::Control(y)) => {
            lemma_varint_prefix(1, 1, varint_bytes(control_tag(x)) + r1, varint_bytes(control_tag(y)) + r2);
            lemma_varint_prefix(control_tag(x), control_tag(y), r1, r2);
        },
        (ToSoup::Stdin(x), ToSoup::Control(y)) => {
            lemma_varint_prefix(0, 1, blob_then(x@, r1), varint_bytes(control_tag(y)) + r2);
        },
        (ToSoup::Stdin(x), ToSoup::ToApp(y)) => {
            lemma_varint_prefix(0, 2, blob_then(x@, r1), blob_then(y@, r2));
        },
        (ToSoup::Control(x), ToSoup::Stdin(y)) => {
            lemma_varint_prefix(1, 0, varint_bytes(control_tag(x)) + r1, blob_then(y@, r2));
        },
        (ToSoup::Control(x), ToSoup::ToApp(y)) => {
            lemma_varint_prefix(1, 2, varint_bytes(control_tag(x)) + r1, blob_then(y@, r2));
        },
        (ToSoup::ToApp(x), ToSoup::Stdin(y)) => {
            lemma_varint_prefix(2, 0, blob_then(x@, r1), blob_then(y@, r2));
        },
        (ToSoup::ToApp(x), ToSoup::Control(y)) => {
            lemma_varint_prefix(2, 1, blob_then(x@, r1), varint_bytes(control_tag(y)) + r2);
        },
    }
}

/// The variant index of a message from the application.
pub open spec fn from_soup_tag(m: FromSoup) -> nat {
    match m {
        FromSoup::Stdout(_) => 0,
        FromSoup::Stderr(_) => 1,
        FromSoup::ControlResponse(_) => 2,
        FromSoup::FromApp(_) => 3,
        FromSoup::Error(_) => 4,
    }
}

/// The fields of a message from the application, followed by `rest`.
pub open spec fn from_soup_fields(m: FromSoup, rest: Seq<u8>) -> Seq<u8> {
    match m {
        FromSoup::Stdout(x) => blob_then(x@, rest),
        FromSoup::Stderr(x) => blob_then(x@, rest),
        FromSoup::ControlResponse(ControlResponse::AppInfo(x)) => varint_bytes(0) + blob_then(
            x@,
            rest,
        ),
        FromSoup::FromApp(x) => blob_then(x@, rest),
        FromSoup::Error(Error::Other(x)) => varint_bytes(0) + blob_then(x@, rest),
        FromSoup::Error(Error::InvalidMessage) => varint_bytes(1) + rest,
    }
}

/// Messages from the application are uniquely decodable: an encoded message
/// followed by anything determines the message and what follows it.
pub proof fn lemma_from_soup_round_trip(m1: FromSoup, m2: FromSoup, r1: Seq<u8>, r2: Seq<u8>)
    requires
        from_soup_then(m1, r1) == from_soup_then(m2, r2),
    ensures
        same_from_soup(m1, m2),
        r1 == r2,
{
    assert(from_soup_then(m1, r1) == varint_bytes(from_soup_tag(m1)) + from_soup_fields(m1, r1));
    assert(from_soup_then(m2, r2) == varint_bytes(from_soup_tag(m2)) + from_soup_fields(m2, r2));
    lemma_varint_prefix(
        from_soup_tag(m1),
        from_soup_tag(m2),
        from_soup_fields(m1, r1),
        from_soup_fields(m2, r2),
    );
    match (m1, m2) {
        (FromSoup::Stdout(x), FromSoup::Stdout(y)) => lemma_blob_prefix(x@, y@, r1, r2),
        (FromSoup::Stderr(x), FromSoup::Stderr(y)) => lemma_blob_prefix(x@, y@, r1, r2),
        (FromSoup::FromApp(x), FromSoup::FromApp(y)) => lemma_blob_prefix(x@, y@, r1, r2),
        (
            FromSoup::ControlResponse(ControlResponse::AppInfo(x)),
            FromSoup::ControlResponse(ControlResponse::AppInfo(y)),
        ) => {
            lemma_varint_prefix(0, 0, blob_then(x@, r1), blob_then(y@, r2));
            lemma_blob_prefix(x@, y@, r1, r2);
        },
        (FromSoup::Error(Error::Other(x)), FromSoup::Error(Error::Other(y))) => {
            lemma_varint_prefix(0, 0, blob_then(x@, r1), blob_then(y@, r2));
            lemma_blob_prefix(x@, y@, r1, r2);
        },
        (FromSoup::Error(Error::Other(x)), FromSoup::Error(Error::InvalidMessage)) => {
            lemma_varint_prefix(0, 1, blob_then(x@, r1), r2);
        },
        (FromSoup::Error(Error::InvalidMessage), FromSoup::Error(Error::Other(y))) => {
            lemma_varint_prefix(1, 0, r1, blob_then(y@, r2));
        },
        (FromSoup::Error(Error::InvalidMessage), FromSoup::Error(Error::InvalidMessage)) => {
            lemma_varint_prefix(1, 1, r1, r2);
        },
        _ => {},
    }
}

/// What the application does with a message from the host.
pub enum AppAction<'a> {
    /// Reset the device.
    Reset,
    /// Hand the bytes to the application's standard input.
    ForwardStdin(&'a [u8]),
    /// Nothing to do or answer.
    Ignore,
    /// A message this application does not serve.
    Unsupported,
}

/// Decides what the application does with a message from the host: a reboot
/// request resets, console input goes to standard input, a request for
/// application information is not answered, and application-defined
/// messages are not served.
pub fn app_action<'a>(msg: &'a ToSoup) -> (r: AppAction<'a>)
    ensures
        match *msg {
            ToSoup::Control(Control::Reboot) => r is Reset,
            ToSoup::Control(Control::SendAppInfo) => r is Ignore,
            ToSoup::Stdin(x) => r matches AppAction::ForwardStdin(b) && b@ == x@,
            ToSoup::ToApp(_) => r is Unsupported,
        },
{
    match msg {
        ToSoup::Control(Control::Reboot) => AppAction::Reset,
        ToSoup::Control(Control::SendAppInfo) => AppAction::Ignore,
        ToSoup::Stdin(x) => AppAction::ForwardStdin(x.as_slice()),
        ToSoup::ToApp(_) => AppAction::Unsupported,
    }
}

} // verus!
