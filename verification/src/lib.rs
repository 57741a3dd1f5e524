//! Lumen: the page-storage core of an embedded database engine.
//!
//! The crate defines the on-disk page format (a 16-byte header followed by a
//! 4080-byte data area), the CRC-32 integrity checksum over a page, and the
//! checks that every page must pass before it is handed to a caller. Each
//! function carries a contract over the bytes of a page, and the laws that
//! relate the functions are stated as proof functions beside them.

use vstd::prelude::*;

pub mod common;
pub mod storage;

pub use common::Error;

verus! {

/// Major version number.
pub const VERSION_MAJOR: u32 = 0;

/// Minor version number.
pub const VERSION_MINOR: u32 = 1;

/// Patch version number.
pub const VERSION_PATCH: u32 = 0;

/// Version string, `major.minor.patch`.
pub const VERSION: &'static str = "0.1.0";

} // verus!
