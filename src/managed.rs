//! A byte buffer that is either borrowed from the caller or owned.

use vstd::prelude::*;
use vstd::slice::slice_to_vec;

verus! {

/// Bytes that are borrowed (on the device, where nothing is allocated) or
/// owned (on the host, where replies outlive the read loop).
pub enum Managed<'a> {
    /// Borrowed variant.
    Borrowed(&'a [u8]),
    /// Owned variant.
    Owned(Vec<u8>),
}

impl<'a> View for Managed<'a> {
    type V = Seq<u8>;

    open spec fn view(&self) -> Seq<u8> {
        match self {
            Managed::Borrowed(s) => s@,
            Managed::Owned(v) => v@,
        }
    }
}

impl<'a> Managed<'a> {
    /// Create a `Managed` from a borrowed slice.
    pub fn from_borrowed(s: &'a [u8]) -> (r: Self)
        ensures
            r is Borrowed,
            r@ == s@,
    {
        Managed::Borrowed(s)
    }

    /// Create a `Managed` from an owned vector.
    pub fn from_vec(v: Vec<u8>) -> (r: Managed<'static>)
        ensures
            r is Owned,
            r@ == v@,
    {
        Managed::Owned(v)
    }

    /// View the bytes as a slice.
    pub fn as_slice(&self) -> (r: &[u8])
        ensures
            r@ == self@,
    {
        match self {
            Managed::Borrowed(s) => s,
            Managed::Owned(v) => v.as_slice(),
        }
    }

    /// An owned copy of the bytes.
    pub fn to_owned(&self) -> (r: Managed<'static>)
        ensures
            r is Owned,
            r@ == self@,
    {
        match self {
            Managed::Borrowed(b) => Managed::Owned(slice_to_vec(b)),
            Managed::Owned(v) => Managed::Owned(slice_to_vec(v.as_slice())),
        }
    }

    /// The number of bytes held.
    pub fn len(&self) -> (r: usize)
        ensures
            r == self@.len(),
    {
        self.as_slice().len()
    }
}

/// Whether two byte slices hold the same bytes.
pub fn bytes_eq(a: &[u8], b: &[u8]) -> (r: bool)
    ensures
        r == (a@ == b@),
{
    if a.len() != b.len() {
        return false;
    }
    let mut i: usize = 0;
    while i < a.len()
        invariant
            a@.len() == b@.len(),
            i <= a@.len(),
            forall|k: int| 0 <= k < i ==> a@[k] == b@[k],
        decreases a@.len() - i,
    {
        if a[i] != b[i] {
            return false;
        }
        i = i + 1;
    }
    assert(a@ =~= b@);
    true
}

impl<'a> PartialEq for Managed<'a> {
    fn eq(&self, other: &Self) -> (r: bool) {
        bytes_eq(self.as_slice(), other.as_slice())
    }
}

impl<'a> vstd::std_specs::cmp::PartialEqSpecImpl for Managed<'a> {
    open spec fn obeys_eq_spec() -> bool {
        true
    }

    open spec fn eq_spec(&self, other: &Managed<'a>) -> bool {
        self@ == other@
    }
}

impl From<Vec<u8>> for Managed<'static> {
    fn from(s: Vec<u8>) -> (r: Self) {
        Managed::Owned(s)
    }
}

impl vstd::std_specs::convert::FromSpecImpl<Vec<u8>> for Managed<'static> {
    open spec fn obeys_from_spec() -> bool {
        true
    }

    open spec fn from_spec(s: Vec<u8>) -> Self {
        Managed::Owned(s)
    }
}

impl<'a> From<&'a [u8]> for Managed<'a> {
    fn from(s: &'a [u8]) -> (r: Self) {
        Managed::Borrowed(s)
    }
}

impl<'a> vstd::std_specs::convert::FromSpecImpl<&'a [u8]> for Managed<'a> {
    open spec fn obeys_from_spec() -> bool {
        true
    }

    open spec fn from_spec(s: &'a [u8]) -> Self {
        Managed::Borrowed(s)
    }
}

} // verus!
