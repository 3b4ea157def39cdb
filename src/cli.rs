//! The host's commands, as plain values (argument parsing lives with the
//! program), and the requests that some of them make.

use vstd::prelude::*;
use crate::icd::Request;

verus! {

/// The RAM address where a flash image is staged before it is copied.
pub const RAM_ORIGIN: usize = 0x2000_0000;

/// A device address.
#[derive(PartialEq, Eq, Structural, Clone, Copy, Debug)]
pub struct Address(pub u32);

/// Bytes given on the command line.
pub struct WriteBytes(pub Vec<u8>);

/// Read memory.
pub struct Peek {
    /// The address to read from.
    pub address: Address,
    /// How many bytes to read.
    pub count: usize,
    /// Where to write them; printed when absent.
    pub file: Option<String>,
}

/// Write memory.
pub struct Poke {
    /// The address to write to.
    pub address: Address,
    /// The bytes to write.
    pub val: Option<WriteBytes>,
    /// A file holding the bytes to write.
    pub file: Option<String>,
}

/// Jump to an application after a reset.
pub struct Bootload {
    /// The application's vector table.
    pub address: Address,
}

/// Commands for the loader.
pub enum Stage0 {
    /// Read from RAM.
    Peek(Peek),
    /// Read from flash.
    FlashPeek(Peek),
    /// Write to RAM.
    Poke(Poke),
    /// Write to flash.
    FlashPoke(Poke),
    /// Reboot into loaded firmware.
    Bootload(Bootload),
}

/// Load and run an image.
pub struct Run {
    /// The image's path.
    pub elf_path: String,
}

/// Loader commands, reached through the application's tool.
pub struct S0Shim {
    pub shim: Stage0,
}

/// The host's commands.
pub enum Soup {
    /// Reboot the application.
    Reboot,
    /// Check that an application is connected.
    Nop,
    /// Loader commands.
    Stage0(S0Shim),
    /// Forward the console.
    Stdio,
    /// Load and run an image.
    Run(Run),
}

/// The request that copies `len` bytes staged at `RAM_ORIGIN` into flash at
/// `flash_start`.
pub fn flash_copy_request(flash_start: Address, len: usize) -> (r: Request<'static>)
    ensures
        r == (Request::FlashCopy {
            ram_start: RAM_ORIGIN,
            flash_start: flash_start.0 as usize,
            len,
        }),
{
    Request::FlashCopy { ram_start: RAM_ORIGIN, flash_start: flash_start.0 as usize, len }
}

/// The request that makes the device jump to `address` after a reset.
pub fn bootload_request(address: Address) -> (r: Request<'static>)
    ensures
        r == (Request::Bootload { addr: address.0 }),
{
    Request::Bootload { addr: address.0 }
}

} // verus!
