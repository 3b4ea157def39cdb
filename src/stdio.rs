//! Handles on the application's console streams, and the frames that carry
//! each stream's bytes.

use vstd::prelude::*;
use crate::codec::{frame_from_soup, frame_to_soup, frames};
use crate::managed::Managed;
use crate::soup_icd::{FromSoup, ToSoup, from_soup_bytes, to_soup_bytes};

verus! {

/// The application's standard output.
#[derive(PartialEq, Eq, Structural, Clone, Copy, Debug)]
pub struct Stdout;

/// The application's standard error.
#[derive(PartialEq, Eq, Structural, Clone, Copy, Debug)]
pub struct Stderr;

/// The application's standard input.
#[derive(PartialEq, Eq, Structural, Clone, Copy, Debug)]
pub struct Stdin;

/// The standard output handle.
pub fn stdout() -> (r: Stdout)
    ensures
        r == Stdout,
{
    Stdout
}

/// The standard error handle.
pub fn stderr() -> (r: Stderr)
    ensures
        r == Stderr,
{
    Stderr
}

/// The standard input handle.
pub fn stdin() -> (r: Stdin)
    ensures
        r == Stdin,
{
    Stdin
}

impl Stdout {
    /// The frame that carries `bytes` of output to the host.
    pub fn frame(&self, bytes: &[u8]) -> (r: Vec<u8>)
        ensures
            frames(r@, from_soup_bytes(FromSoup::Stdout(Managed::Borrowed(bytes)))),
    {
        frame_from_soup(&FromSoup::Stdout(Managed::from_borrowed(bytes)))
    }
}

impl Stderr {
    /// The frame that carries `bytes` of error output to the host.
    pub fn frame(&self, bytes: &[u8]) -> (r: Vec<u8>)
        ensures
            frames(r@, from_soup_bytes(FromSoup::Stderr(Managed::Borrowed(bytes)))),
    {
        frame_from_soup(&FromSoup::Stderr(Managed::from_borrowed(bytes)))
    }
}

impl Stdin {
    /// The frame that carries `bytes` of input from the host.
    pub fn frame(&self, bytes: &[u8]) -> (r: Vec<u8>)
        ensures
            frames(r@, to_soup_bytes(ToSoup::Stdin(Managed::Borrowed(bytes)))),
    {
        frame_to_soup(&ToSoup::Stdin(Managed::from_borrowed(bytes)))
    }
}

} // verus!
