//! The 16-byte header at the start of every page, and its on-disk form.
//!
//! | offset | field      | width |
//! |--------|------------|-------|
//! | 0      | page_id    | 4     |
//! | 4      | page_type  | 1     |
//! | 5      | flags      | 1     |
//! | 6      | free_space | 2     |
//! | 8      | checksum   | 4     |
//! | 12     | lsn        | 4     |
//!
//! Integers are stored little-endian. The header is encoded and decoded field
//! by field at these offsets, so no field needs any alignment.

use vstd::prelude::*;
use crate::common::error::{length_message, Error};
use crate::storage::page_constants::{PageId, INVALID_PAGE_ID, PAGE_HEADER_SIZE};
use crate::storage::page_type::{is_tag, tag_of, type_of_tag, PageType};

verus! {

/// Offset of the page identifier.
pub const PAGE_ID_OFFSET: usize = 0;

/// Offset of the page type tag.
pub const PAGE_TYPE_OFFSET: usize = 4;

/// Offset of the flags byte.
pub const FLAGS_OFFSET: usize = 5;

/// Offset of the free-space counter.
pub const FREE_SPACE_OFFSET: usize = 6;

/// Offset of the checksum field.
pub const CHECKSUM_FIELD_OFFSET: usize = 8;

/// Offset of the log sequence number.
pub const LSN_OFFSET: usize = 12;

/// Bit of `flags` that marks a page as dirty.
pub const FLAG_DIRTY: u8 = 0x01;

/// Bit of `flags` that marks a page as pinned.
pub const FLAG_PINNED: u8 = 0x02;

/// The free space of a page with an empty data area.
pub const FULL_FREE_SPACE: u16 = 4080;

/// The four bytes of a `u32`, least significant first.
pub open spec fn u32_le_bytes(x: u32) -> Seq<u8> {
    seq![
        (x & 0xff) as u8,
        ((x >> 8) & 0xff) as u8,
        ((x >> 16) & 0xff) as u8,
        ((x >> 24) & 0xff) as u8,
    ]
}

/// The `u32` that four bytes stand for, least significant first.
pub open spec fn u32_from_le(b0: u8, b1: u8, b2: u8, b3: u8) -> u32 {
    (b0 as u32) | ((b1 as u32) << 8) | ((b2 as u32) << 16) | ((b3 as u32) << 24)
}

/// The two bytes of a `u16`, least significant first.
pub open spec fn u16_le_bytes(x: u16) -> Seq<u8> {
    seq![(x & 0xff) as u8, ((x >> 8) & 0xff) as u8]
}

/// The `u16` that two bytes stand for, least significant first.
pub open spec fn u16_from_le(b0: u8, b1: u8) -> u16 {
    (b0 as u16) | ((b1 as u16) << 8)
}

/// The `u32` stored little-endian in `bytes` at `offset`.
pub open spec fn u32_at(bytes: Seq<u8>, offset: int) -> u32
    recommends
        0 <= offset,
        offset + 4 <= bytes.len(),
{
    u32_from_le(bytes[offset], bytes[offset + 1], bytes[offset + 2], bytes[offset + 3])
}

/// The header of a page.
#[derive(Debug, Clone, Copy, PartialEq, Eq, Structural)]
pub struct PageHeader {
    /// Identifier of the page.
    pub page_id: u32,
    /// What the page stores.
    pub page_type: PageType,
    /// Bit 0: dirty. Bit 1: pinned. The other bits are reserved.
    pub flags: u8,
    /// Bytes of the data area that are not in use.
    pub free_space: u16,
    /// Checksum of the page, computed over all of it but this field.
    pub checksum: u32,
    /// Log sequence number of the last change to the page.
    pub lsn: u32,
}

/// The header that a fresh page carries.
pub open spec fn default_header() -> PageHeader {
    PageHeader {
        page_id: INVALID_PAGE_ID,
        page_type: PageType::Header,
        flags: 0,
        free_space: FULL_FREE_SPACE,
        checksum: 0,
        lsn: 0,
    }
}

/// The on-disk form of a header: sixteen bytes.
pub open spec fn encode_header(h: PageHeader) -> Seq<u8> {
    u32_le_bytes(h.page_id) + seq![tag_of(h.page_type), h.flags] + u16_le_bytes(h.free_space)
        + u32_le_bytes(h.checksum) + u32_le_bytes(h.lsn)
}

/// Whether the first sixteen bytes of `bytes` are the on-disk form of some
/// header: there are that many, and the type byte is a tag.
pub open spec fn holds_header(bytes: Seq<u8>) -> bool {
    bytes.len() >= PAGE_HEADER_SIZE && is_tag(bytes[PAGE_TYPE_OFFSET as int])
}

/// The header that the first sixteen bytes of `bytes` stand for. Meaningful
/// where `holds_header` holds.
pub open spec fn header_of(bytes: Seq<u8>) -> PageHeader {
    PageHeader {
        page_id: u32_at(bytes, PAGE_ID_OFFSET as int),
        page_type: type_of_tag(bytes[PAGE_TYPE_OFFSET as int]),
        flags: bytes[FLAGS_OFFSET as int],
        free_space: u16_from_le(
            bytes[FREE_SPACE_OFFSET as int],
            bytes[FREE_SPACE_OFFSET + 1],
        ),
        checksum: u32_at(bytes, CHECKSUM_FIELD_OFFSET as int),
        lsn: u32_at(bytes, LSN_OFFSET as int),
    }
}

/// Whether the dirty bit is set in a flags byte.
pub open spec fn dirty_in(flags: u8) -> bool {
    flags & FLAG_DIRTY != 0
}

/// Whether the pinned bit is set in a flags byte.
pub open spec fn pinned_in(flags: u8) -> bool {
    flags & FLAG_PINNED != 0
}

/// A flags byte with one bit set or cleared and the other seven kept.
pub open spec fn with_bit(flags: u8, bit: u8, on: bool) -> u8 {
    if on {
        flags | bit
    } else {
        flags & !bit
    }
}

/// Writes `x` little-endian into `out` at `offset`.
pub fn put_u32_le(out: &mut [u8], offset: usize, x: u32)
    requires
        offset + 4 <= old(out)@.len(),
    ensures
        final(out)@.len() == old(out)@.len(),
        final(out)@.subrange(offset as int, offset + 4) == u32_le_bytes(x),
        u32_at(final(out)@, offset as int) == x,
        forall|i: int|
            0 <= i < old(out)@.len() && !(offset <= i < offset + 4) ==> #[trigger] final(out)@[i]
                == old(out)@[i],
{
    assert(x & 0xff < 256 && (x >> 8) & 0xff < 256 && (x >> 16) & 0xff < 256 && (x >> 24) & 0xff
        < 256) by (bit_vector);
    out[offset] = (x & 0xff) as u8;
    out[offset + 1] = ((x >> 8) & 0xff) as u8;
    out[offset + 2] = ((x >> 16) & 0xff) as u8;
    out[offset + 3] = ((x >> 24) & 0xff) as u8;
    proof {
        lemma_u32_le_round_trip(x);
        assert(out@.subrange(offset as int, offset + 4) =~= u32_le_bytes(x));
    }
}

/// Reads the `u32` stored little-endian in `bytes` at `offset`.
pub fn get_u32_le(bytes: &[u8], offset: usize) -> (x: u32)
    requires
        offset + 4 <= bytes@.len(),
    ensures
        x == u32_at(bytes@, offset as int),
{
    let b0: u32 = bytes[offset] as u32;
    let b1: u32 = bytes[offset + 1] as u32;
    let b2: u32 = bytes[offset + 2] as u32;
    let b3: u32 = bytes[offset + 3] as u32;
    b0 | (b1 << 8) | (b2 << 16) | (b3 << 24)
}

impl Default for PageHeader {
    /// The header of a fresh page: no identifier, the file-header type, no
    /// flag set, the whole data area free, checksum and sequence number zero.
    fn default() -> (h: PageHeader)
        ensures
            h == default_header(),
    {
        PageHeader {
            page_id: INVALID_PAGE_ID,
            page_type: PageType::Header,
            flags: 0,
            free_space: FULL_FREE_SPACE,
            checksum: 0,
            lsn: 0,
        }
    }
}

impl PageHeader {
    /// The default header with the given type and identifier.
    pub fn new(page_type: PageType, page_id: PageId) -> (h: PageHeader)
        ensures
            h == (PageHeader { page_id, page_type, ..default_header() }),
    {
        PageHeader {
            page_id,
            page_type,
            flags: 0,
            free_space: FULL_FREE_SPACE,
            checksum: 0,
            lsn: 0,
        }
    }

    /// Whether the page is marked as changed since it was last written.
    pub fn is_dirty(&self) -> (r: bool)
        ensures
            r == dirty_in(self.flags),
    {
        self.flags & FLAG_DIRTY != 0
    }

    /// Sets or clears the dirty bit. Nothing else changes.
    pub fn set_dirty(&mut self, dirty: bool)
        ensures
            *final(self) == (PageHeader {
                flags: with_bit(old(self).flags, FLAG_DIRTY, dirty),
                ..*old(self)
            }),
            dirty_in(final(self).flags) == dirty,
            pinned_in(final(self).flags) == pinned_in(old(self).flags),
    {
        proof {
            lemma_flag_bits_independent(self.flags, dirty);
        }
        if dirty {
            self.flags = self.flags | FLAG_DIRTY;
        } else {
            self.flags = self.flags & !FLAG_DIRTY;
        }
    }

    /// Whether the page is pinned in memory.
    pub fn is_pinned(&self) -> (r: bool)
        ensures
            r == pinned_in(self.flags),
    {
        self.flags & FLAG_PINNED != 0
    }

    /// Sets or clears the pinned bit. Nothing else changes.
    pub fn set_pinned(&mut self, pinned: bool)
        ensures
            *final(self) == (PageHeader {
                flags: with_bit(old(self).flags, FLAG_PINNED, pinned),
                ..*old(self)
            }),
            pinned_in(final(self).flags) == pinned,
            dirty_in(final(self).flags) == dirty_in(old(self).flags),
    {
        proof {
            lemma_flag_bits_independent(self.flags, pinned);
        }
        if pinned {
            self.flags = self.flags | FLAG_PINNED;
        } else {
            self.flags = self.flags & !FLAG_PINNED;
        }
    }

    /// The on-disk form of the header.
    pub fn to_bytes(&self) -> (out: [u8; 16])
        ensures
            out@ == encode_header(*self),
    {
        let mut out = [0u8; 16];
        let free = self.free_space;
        assert(free & 0xff < 256 && (free >> 8) & 0xff < 256) by (bit_vector);
        put_u32_le(&mut out, PAGE_ID_OFFSET, self.page_id);
        out[PAGE_TYPE_OFFSET] = self.page_type.as_u8();
        out[FLAGS_OFFSET] = self.flags;
        out[FREE_SPACE_OFFSET] = (free & 0xff) as u8;
        out[FREE_SPACE_OFFSET + 1] = ((free >> 8) & 0xff) as u8;
        put_u32_le(&mut out, CHECKSUM_FIELD_OFFSET, self.checksum);
        put_u32_le(&mut out, LSN_OFFSET, self.lsn);
        proof {
            let e = encode_header(*self);
            assert(out@.subrange(0, 4) =~= u32_le_bytes(self.page_id));
            assert forall|i: int| 0 <= i < 16 implies out@[i] == e[i] by {
                if i < 4 {
                    assert(out@[i] == out@.subrange(0, 4)[i]);
                } else if i >= 12 {
                    assert(out@[i] == out@.subrange(12, 16)[i - 12]);
                } else if i >= 8 {
                    assert(out@[i] == out@.subrange(8, 12)[i - 8]);
                }
            }
            assert(out@ =~= e);
        }
        out
    }

    /// Decodes the on-disk form of a header. Sixteen bytes whose type byte is
    /// a tag decode to the header they stand for. A slice of another length is
    /// refused with `InvalidInput`, and a type byte that is no tag with
    /// `InvalidPageType` and the byte.
    pub fn from_bytes(bytes: &[u8]) -> (r: Result<PageHeader, Error>)
        ensures
            bytes@.len() == PAGE_HEADER_SIZE && holds_header(bytes@) ==> r == Ok::<
                PageHeader,
                Error,
            >(header_of(bytes@)),
            bytes@.len() == PAGE_HEADER_SIZE && !holds_header(bytes@) ==> r == Err::<
                PageHeader,
                Error,
            >(Error::InvalidPageType(bytes@[PAGE_TYPE_OFFSET as int])),
            bytes@.len() != PAGE_HEADER_SIZE ==> r is Err && r->Err_0 is InvalidInput,
    {
        if bytes.len() != PAGE_HEADER_SIZE {
            return Err(
                Error::InvalidInput(length_message("header size", PAGE_HEADER_SIZE, bytes.len())),
            );
        }
        Self::read_from(bytes)
    }

    /// Decodes the header at the start of `bytes`, which may be longer than a
    /// header. A type byte that is no tag is refused with `InvalidPageType`
    /// and the byte.
    pub fn read_from(bytes: &[u8]) -> (r: Result<PageHeader, Error>)
        requires
            bytes@.len() >= PAGE_HEADER_SIZE,
        ensures
            holds_header(bytes@) ==> r == Ok::<PageHeader, Error>(header_of(bytes@)),
            !holds_header(bytes@) ==> r == Err::<PageHeader, Error>(
                Error::InvalidPageType(bytes@[PAGE_TYPE_OFFSET as int]),
            ),
    {
        let page_type = match PageType::try_from(bytes[PAGE_TYPE_OFFSET]) {
            Ok(t) => t,
            Err(e) => {
                return Err(e);
            },
        };
        let lo: u16 = bytes[FREE_SPACE_OFFSET] as u16;
        let hi: u16 = bytes[FREE_SPACE_OFFSET + 1] as u16;
        Ok(
            PageHeader {
                page_id: get_u32_le(bytes, PAGE_ID_OFFSET),
                page_type,
                flags: bytes[FLAGS_OFFSET],
                free_space: lo | (hi << 8),
                checksum: get_u32_le(bytes, CHECKSUM_FIELD_OFFSET),
                lsn: get_u32_le(bytes, LSN_OFFSET),
            },
        )
    }
}

/// Setting or clearing one of the two flag bits gives that bit the wanted
/// value and leaves the other as it was.
pub proof fn lemma_flag_bits_independent(flags: u8, on: bool)
    ensures
        dirty_in(with_bit(flags, FLAG_DIRTY, on)) == on,
        pinned_in(with_bit(flags, FLAG_DIRTY, on)) == pinned_in(flags),
        pinned_in(with_bit(flags, FLAG_PINNED, on)) == on,
        dirty_in(with_bit(flags, FLAG_PINNED, on)) == dirty_in(flags),
{
    assert((flags | 0x01u8) & 0x01u8 != 0) by (bit_vector);
    assert((flags & !0x01u8) & 0x01u8 == 0) by (bit_vector);
    assert((flags | 0x01u8) & 0x02u8 == flags & 0x02u8) by (bit_vector);
    assert((flags & !0x01u8) & 0x02u8 == flags & 0x02u8) by (bit_vector);
    assert((flags | 0x02u8) & 0x02u8 != 0) by (bit_vector);
    assert((flags & !0x02u8) & 0x02u8 == 0) by (bit_vector);
    assert((flags | 0x02u8) & 0x01u8 == flags & 0x01u8) by (bit_vector);
    assert((flags & !0x02u8) & 0x01u8 == flags & 0x01u8) by (bit_vector);
}

/// Four bytes read back as the `u32` they were written from, and a `u32`
/// made of four bytes is written as those bytes.
pub proof fn lemma_u32_le_round_trip(x: u32)
    ensures
        u32_le_bytes(x).len() == 4,
        u32_at(u32_le_bytes(x), 0) == x,
{
    assert(((x & 0xff) as u8 as u32) | ((((x >> 8) & 0xff) as u8 as u32) << 8) | ((((x >> 16)
        & 0xff) as u8 as u32) << 16) | ((((x >> 24) & 0xff) as u8 as u32) << 24) == x)
        by (bit_vector);
}

/// Two bytes read back as the `u16` they were written from.
pub proof fn lemma_u16_le_round_trip(x: u16)
    ensures
        u16_le_bytes(x).len() == 2,
        u16_from_le(u16_le_bytes(x)[0], u16_le_bytes(x)[1]) == x,
{
    assert(((x & 0xff) as u8 as u16) | ((((x >> 8) & 0xff) as u8 as u16) << 8) == x)
        by (bit_vector);
}

/// Four bytes are the little-endian form of the `u32` that they stand for.
pub proof fn lemma_u32_from_le_bytes(b0: u8, b1: u8, b2: u8, b3: u8)
    ensures
        u32_le_bytes(u32_from_le(b0, b1, b2, b3)) == seq![b0, b1, b2, b3],
{
    let x = u32_from_le(b0, b1, b2, b3);
    assert(x == (b0 as u32) | ((b1 as u32) << 8) | ((b2 as u32) << 16) | ((b3 as u32) << 24));
    assert(({
        let y = (b0 as u32) | ((b1 as u32) << 8) | ((b2 as u32) << 16) | ((b3 as u32) << 24);
        (y & 0xff) as u8 == b0 && ((y >> 8) & 0xff) as u8 == b1 && ((y >> 16) & 0xff) as u8 == b2
            && ((y >> 24) & 0xff) as u8 == b3
    })) by (bit_vector);
    assert(u32_le_bytes(x) =~= seq![b0, b1, b2, b3]);
}

/// Two bytes are the little-endian form of the `u16` that they stand for.
pub proof fn lemma_u16_from_le_bytes(b0: u8, b1: u8)
    ensures
        u16_le_bytes(u16_from_le(b0, b1)) == seq![b0, b1],
{
    let x = u16_from_le(b0, b1);
    assert(({
        let y = (b0 as u16) | ((b1 as u16) << 8);
        (y & 0xff) as u8 == b0 && ((y >> 8) & 0xff) as u8 == b1
    })) by (bit_vector);
    assert(u16_le_bytes(x) =~= seq![b0, b1]);
}

/// Round trip, from a header: whatever the fields hold, the on-disk form of a
/// header is sixteen bytes that decode, and they decode to the same header,
/// field for field.
pub proof fn lemma_header_round_trip(h: PageHeader)
    ensures
        encode_header(h).len() == PAGE_HEADER_SIZE,
        holds_header(encode_header(h)),
        header_of(encode_header(h)) == h,
{
    let e = encode_header(h);
    lemma_u32_le_round_trip(h.page_id);
    lemma_u32_le_round_trip(h.checksum);
    lemma_u32_le_round_trip(h.lsn);
    lemma_u16_le_round_trip(h.free_space);
    assert(e.len() == 16);
    assert(e[0] == u32_le_bytes(h.page_id)[0] && e[1] == u32_le_bytes(h.page_id)[1] && e[2]
        == u32_le_bytes(h.page_id)[2] && e[3] == u32_le_bytes(h.page_id)[3]);
    assert(e[4] == tag_of(h.page_type) && e[5] == h.flags);
    assert(e[6] == u16_le_bytes(h.free_space)[0] && e[7] == u16_le_bytes(h.free_space)[1]);
    assert(e[8] == u32_le_bytes(h.checksum)[0] && e[9] == u32_le_bytes(h.checksum)[1] && e[10]
        == u32_le_bytes(h.checksum)[2] && e[11] == u32_le_bytes(h.checksum)[3]);
    assert(e[12] == u32_le_bytes(h.lsn)[0] && e[13] == u32_le_bytes(h.lsn)[1] && e[14]
        == u32_le_bytes(h.lsn)[2] && e[15] == u32_le_bytes(h.lsn)[3]);
    assert(type_of_tag(tag_of(h.page_type)) == h.page_type);
}

/// Round trip, from bytes: sixteen bytes that decode are the on-disk form of
/// the header that they decode to.
pub proof fn lemma_bytes_round_trip(bytes: Seq<u8>)
    requires
        bytes.len() == PAGE_HEADER_SIZE,
        holds_header(bytes),
    ensures
        encode_header(header_of(bytes)) == bytes,
{
    let h = header_of(bytes);
    lemma_u32_from_le_bytes(bytes[0], bytes[1], bytes[2], bytes[3]);
    lemma_u16_from_le_bytes(bytes[6], bytes[7]);
    lemma_u32_from_le_bytes(bytes[8], bytes[9], bytes[10], bytes[11]);
    lemma_u32_from_le_bytes(bytes[12], bytes[13], bytes[14], bytes[15]);
    assert(tag_of(type_of_tag(bytes[4])) == bytes[4]);
    assert(encode_header(h) =~= bytes);
}

} // verus!
