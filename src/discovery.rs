//! Host-side discovery: classifying serial ports by their USB product
//! string, refusing to guess between several candidates, and deciding what
//! to do with what was found.

use vstd::prelude::*;
use vstd::slice::slice_subrange;
use vstd::utf8::encode_utf8;
use crate::managed::bytes_eq;

verus! {

/// Which firmware a device is running.
#[derive(PartialEq, Eq, Structural, Clone, Copy, Debug)]
pub enum PortKind {
    /// The first-stage loader.
    Stage0,
    /// The application.
    SoupApp,
}

/// A serial port as the host enumerates it.
pub struct PortInfo {
    /// The name to open it by.
    pub name: String,
    /// The USB product string, for USB ports that have one.
    pub product: Option<String>,
    /// The USB serial number, for USB ports that have one.
    pub serial_number: Option<String>,
}

/// Why discovery found no single device.
pub enum FindError {
    /// No port matched.
    NoneFound,
    /// Several ports matched; their names.
    TooManyFound(Vec<String>),
    /// The ports could not be enumerated or opened.
    Other(String),
}

/// The loader's product string, "Stage0_Loader" (the host sees its space
/// as an underscore).
pub open spec fn stage0_product() -> Seq<u8> {
    seq![83u8, 116, 97, 103, 101, 48, 95, 76, 111, 97, 100, 101, 114]
}

/// What an application's product string contains, "Soup_App".
pub open spec fn app_product_marker() -> Seq<u8> {
    seq![83u8, 111, 117, 112, 95, 65, 112, 112]
}

/// Whether `needle` occurs in `hay`.
pub open spec fn contains_seq(hay: Seq<u8>, needle: Seq<u8>) -> bool {
    exists|i: int|
        0 <= i && i + needle.len() <= hay.len() && #[trigger] hay.subrange(i, i + needle.len())
            == needle
}

/// The kind of device a product string names: the loader by exact match,
/// an application by substring.
pub open spec fn product_kind(product: Seq<u8>) -> Option<PortKind> {
    if product == stage0_product() {
        Some(PortKind::Stage0)
    } else if contains_seq(product, app_product_marker()) {
        Some(PortKind::SoupApp)
    } else {
        None
    }
}

/// The kind of device on a port, if it is one of ours.
pub open spec fn port_kind(p: PortInfo) -> Option<PortKind> {
    match p.product {
        Some(s) => product_kind(encode_utf8(s@)),
        None => None,
    }
}

/// The indices of the ports that are ours, in order.
pub open spec fn matching(ports: Seq<PortInfo>) -> Seq<int>
    decreases ports.len(),
{
    if ports.len() == 0 {
        Seq::empty()
    } else if port_kind(ports.last()) is Some {
        matching(ports.drop_last()).push(ports.len() - 1)
    } else {
        matching(ports.drop_last())
    }
}

proof fn lemma_matching_bounds(ports: Seq<PortInfo>)
    ensures
        forall|k: int|
            0 <= k < matching(ports).len() ==> 0 <= #[trigger] matching(ports)[k] < ports.len()
                && port_kind(ports[matching(ports)[k]]) is Some,
    decreases ports.len(),
{
    if ports.len() > 0 {
        lemma_matching_bounds(ports.drop_last());
    }
}

/// Whether `needle` occurs in `hay`.
pub fn contains_bytes(hay: &[u8], needle: &[u8]) -> (r: bool)
    ensures
        r == contains_seq(hay@, needle@),
{
    let n = needle.len();
    let len = hay.len();
    if n == 0 {
        assert(hay@.subrange(0, 0 + needle@.len() as int) =~= needle@);
        return true;
    }
    if n > len {
        return false;
    }
    let mut i: usize = 0;
    while i <= len - n
        invariant
            1 <= n <= len,
            len == hay@.len(),
            n == needle@.len(),
            i <= len - n + 1,
            forall|j: int| 0 <= j < i ==> #[trigger] hay@.subrange(j, j + n) != needle@,
        decreases len - n + 1 - i,
    {
        if bytes_eq(slice_subrange(hay, i, i + n), needle) {
            return true;
        }
        i = i + 1;
    }
    false
}

/// The kind of device a USB product string names.
pub fn classify(product: &str) -> (r: Option<PortKind>)
    ensures
        r == product_kind(encode_utf8(product@)),
{
    let bytes = product.as_bytes();
    let stage0: Vec<u8> = vec![83u8, 116, 97, 103, 101, 48, 95, 76, 111, 97, 100, 101, 114];
    let app: Vec<u8> = vec![83u8, 111, 117, 112, 95, 65, 112, 112];
    assert(stage0@ =~= stage0_product());
    assert(app@ =~= app_product_marker());
    if bytes_eq(bytes, stage0.as_slice()) {
        Some(PortKind::Stage0)
    } else if contains_bytes(bytes, app.as_slice()) {
        Some(PortKind::SoupApp)
    } else {
        None
    }
}

/// The kind of device on a port.
pub fn port_kind_of(p: &PortInfo) -> (r: Option<PortKind>)
    ensures
        r == port_kind(*p),
{
    match &p.product {
        Some(s) => classify(s.as_str()),
        None => None,
    }
}

/// Picks the one port that is ours: none is an error, and so are several,
/// which are all named rather than one picked.
pub fn find_port(ports: &Vec<PortInfo>) -> (r: Result<(PortKind, usize), FindError>)
    ensures
        matching(ports@).len() == 0 ==> r matches Err(FindError::NoneFound),
        matching(ports@).len() == 1 ==> r == Ok::<(PortKind, usize), FindError>(
            (port_kind(ports@[matching(ports@)[0]]).unwrap(), matching(ports@)[0] as usize),
        ),
        matching(ports@).len() > 1 ==> (r matches Err(FindError::TooManyFound(names))
            && names@.len() == matching(ports@).len() && forall|k: int|
            0 <= k < names@.len() ==> #[trigger] names@[k]@ == ports@[matching(ports@)[k]].name@),
{
    let mut found: Vec<(PortKind, usize)> = Vec::new();
    let mut names: Vec<String> = Vec::new();
    let mut i: usize = 0;
    while i < ports.len()
        invariant
            i <= ports@.len(),
            found@.len() == matching(ports@.subrange(0, i as int)).len(),
            names@.len() == found@.len(),
            forall|k: int|
                0 <= k < found@.len() ==> (#[trigger] found@[k]).1 < i && found@[k].1 == matching(
                    ports@.subrange(0, i as int),
                )[k] && Some(found@[k].0) == port_kind(ports@[found@[k].1 as int])
                    && names@[k]@ == ports@[found@[k].1 as int].name@,
        decreases ports@.len() - i,
    {
        let ghost before = ports@.subrange(0, i as int);
        let ghost after = ports@.subrange(0, i + 1);
        proof {
            assert(after.drop_last() =~= before);
            assert(after.last() == ports@[i as int]);
        }
        match port_kind_of(&ports[i]) {
            Some(kind) => {
                found.push((kind, i));
                names.push(ports[i].name.clone());
            },
            None => {},
        }
        i = i + 1;
    }
    proof {
        assert(ports@.subrange(0, ports@.len() as int) =~= ports@);
        lemma_matching_bounds(ports@);
    }
    if found.len() == 0 {
        Err(FindError::NoneFound)
    } else if found.len() == 1 {
        Ok(found[0])
    } else {
        proof {
            assert forall|k: int| 0 <= k < names@.len() implies #[trigger] names@[k]@
                == ports@[matching(ports@)[k]].name@ by {
                assert(found@[k].1 == matching(ports@)[k]);
            }
        }
        Err(FindError::TooManyFound(names))
    }
}

/// What the host does after one discovery pass.
#[derive(PartialEq, Eq, Structural, Clone, Copy, Debug)]
pub enum ConnectAction {
    /// Use the port found.
    Use,
    /// Ask the application found to reset into the loader, then search again.
    RebootToLoader,
    /// Wait and search again; `report` when the situation is new.
    Wait { report: bool },
    /// An application is wanted but a loader was found, and no request
    /// leads from the loader to an application.
    NoApplication,
    /// Enumeration or opening failed.
    Failed,
}

/// Whether two lists of port names are the same.
pub open spec fn same_names(a: Seq<String>, b: Seq<String>) -> bool {
    a.len() == b.len() && forall|i: int| 0 <= i < a.len() ==> #[trigger] a[i]@ == b[i]@
}

/// Whether `last` already reported what `now` reports.
pub open spec fn already_reported(last: Option<FindError>, now: FindError) -> bool {
    match (last, now) {
        (Some(FindError::NoneFound), FindError::NoneFound) => true,
        (Some(FindError::TooManyFound(a)), FindError::TooManyFound(b)) => same_names(a@, b@),
        _ => false,
    }
}

fn names_equal(a: &Vec<String>, b: &Vec<String>) -> (r: bool)
    ensures
        r == same_names(a@, b@),
{
    if a.len() != b.len() {
        return false;
    }
    let mut i: usize = 0;
    while i < a.len()
        invariant
            a@.len() == b@.len(),
            i <= a@.len(),
            forall|k: int| 0 <= k < i ==> #[trigger] a@[k]@ == b@[k]@,
        decreases a@.len() - i,
    {
        if !(a[i] == b[i]) {
            return false;
        }
        i = i + 1;
    }
    true
}

/// Decides what to do with the result of one discovery pass, given what
/// the previous pass reported; hands back what to remember for the next.
/// A found port is used when it runs the wanted firmware; an application
/// found while the loader is wanted is asked to reset into it; a loader
/// found while an application is wanted ends the search. A failed pass is
/// waited out, and reported only when it differs from the previous one.
pub fn connect_step(
    looking_for: PortKind,
    last: Option<FindError>,
    found: Result<PortKind, FindError>,
) -> (r: (ConnectAction, Option<FindError>))
    ensures
        match found {
            Ok(kind) => r.1 == last && r.0 == if kind == looking_for {
                ConnectAction::Use
            } else if looking_for == PortKind::Stage0 {
                ConnectAction::RebootToLoader
            } else {
                ConnectAction::NoApplication
            },
            Err(FindError::Other(e)) => r.0 == ConnectAction::Failed && r.1 == Some(
                FindError::Other(e),
            ),
            Err(e) => r.0 == (ConnectAction::Wait { report: !already_reported(last, e) }) && r.1
                == Some(e),
        },
{
    match found {
        Ok(kind) => {
            let action = if kind == looking_for {
                ConnectAction::Use
            } else if looking_for == PortKind::Stage0 {
                ConnectAction::RebootToLoader
            } else {
                ConnectAction::NoApplication
            };
            (action, last)
        },
        Err(FindError::NoneFound) => {
            let seen = match last {
                Some(FindError::NoneFound) => true,
                _ => false,
            };
            (ConnectAction::Wait { report: !seen }, Some(FindError::NoneFound))
        },
        Err(FindError::TooManyFound(nf)) => {
            let seen = match &last {
                Some(FindError::TooManyFound(of)) => names_equal(of, &nf),
                _ => false,
            };
            (ConnectAction::Wait { report: !seen }, Some(FindError::TooManyFound(nf)))
        },
        Err(FindError::Other(e)) => (ConnectAction::Failed, Some(FindError::Other(e))),
    }
}

/// The loader's USB serial number, "12345678".
pub open spec fn stage0_serial() -> Seq<u8> {
    seq![49u8, 50, 51, 52, 53, 54, 55, 56]
}

/// Whether a port carries the loader's serial number.
pub open spec fn has_stage0_serial(p: PortInfo) -> bool {
    match p.serial_number {
        Some(s) => encode_utf8(s@) == stage0_serial(),
        None => false,
    }
}

/// The first port that carries the loader's serial number.
pub fn find_by_serial(ports: &Vec<PortInfo>) -> (r: Option<usize>)
    ensures
        r is None <==> forall|k: int| 0 <= k < ports@.len() ==> !has_stage0_serial(#[trigger] ports@[k]),
        r matches Some(i) ==> i < ports@.len() && has_stage0_serial(ports@[i as int]) && forall|
            k: int,
        |
            0 <= k < i ==> !has_stage0_serial(#[trigger] ports@[k]),
{
    let serial: Vec<u8> = vec![49u8, 50, 51, 52, 53, 54, 55, 56];
    assert(serial@ =~= stage0_serial());
    let mut i: usize = 0;
    while i < ports.len()
        invariant
            i <= ports@.len(),
            serial@ == stage0_serial(),
            forall|k: int| 0 <= k < i ==> !has_stage0_serial(#[trigger] ports@[k]),
        decreases ports@.len() - i,
    {
        let hit = match &ports[i].serial_number {
            Some(sn) => bytes_eq(sn.as_str().as_bytes(), serial.as_slice()),
            None => false,
        };
        if hit {
            return Some(i);
        }
        i = i + 1;
    }
    None
}

} // verus!
