//! Device-recovery and firmware-loading stack: the wire codec shared by the
//! loader and the host, the loader's memory and flash access layer, the
//! cross-reset handoff record, the loader's request dispatcher, and the
//! host's discovery and chunked-transfer logic.

pub mod managed;
pub mod icd;
pub mod soup_icd;
pub mod wire;
pub mod frame;
pub mod codec;
pub mod memory;
pub mod flash;
pub mod handoff;
pub mod loader;
pub mod discovery;
pub mod transfer;
pub mod stdio;
pub mod cli;
pub mod elf;
