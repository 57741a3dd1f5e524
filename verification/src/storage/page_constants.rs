//! Sizes and identifier types shared by the whole storage layer.

use vstd::prelude::*;

verus! {

/// Size of a page in bytes: a power of two, at least 4 KiB.
pub const PAGE_SIZE: usize = 4096;

/// Size of the header at the start of every page.
pub const PAGE_HEADER_SIZE: usize = 16;

/// Size of the data area that follows the header.
pub const PAGE_USABLE_SIZE: usize = PAGE_SIZE - PAGE_HEADER_SIZE;

/// Identifier of a page: page `n` lives at byte offset `n * PAGE_SIZE`.
pub type PageId = u32;

/// The identifier that stands for "no page".
pub const INVALID_PAGE_ID: PageId = 0;

/// The largest page identifier.
pub const MAX_PAGE_ID: PageId = 0xFFFF_FFFF;

} // verus!
