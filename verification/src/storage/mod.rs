//! Storage layer: page layout, header, checksum, page buffer and page framing.

pub mod page_constants;
pub mod checksum;
pub mod page;
pub mod page_header;
pub mod page_io;
pub mod page_type;
