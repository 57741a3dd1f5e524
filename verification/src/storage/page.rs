//! The page: a buffer of exactly one page size, made of the header and the
//! data area, with its checksum operations.

use vstd::prelude::*;
use crate::common::error::{length_message, Error};
use crate::storage::checksum::{
    calculate_page_checksum,
    page_checksum_of,
    CHECKSUM_OFFSET,
    CHECKSUM_SIZE,
};
use crate::storage::page_constants::{PAGE_HEADER_SIZE, PAGE_SIZE, PAGE_USABLE_SIZE};
use crate::storage::page_header::{
    default_header,
    encode_header,
    get_u32_le,
    header_of,
    holds_header,
    put_u32_le,
    u32_at,
    u32_le_bytes,
    PageHeader,
    PAGE_TYPE_OFFSET,
};

verus! {

/// A page: `PAGE_SIZE` bytes, the header first and the data area after it.
pub struct Page {
    buffer: [u8; PAGE_SIZE],
}

impl View for Page {
    type V = Seq<u8>;

    /// The bytes of the page, all `PAGE_SIZE` of them.
    closed spec fn view(&self) -> Seq<u8> {
        self.buffer@
    }
}

/// The bytes of a fresh page: the default header, then zeros.
pub open spec fn fresh_page_bytes() -> Seq<u8> {
    encode_header(default_header()) + Seq::new(PAGE_USABLE_SIZE as nat, |i: int| 0u8)
}

/// The checksum that a page has stored in its header.
pub open spec fn stored_checksum(bytes: Seq<u8>) -> u32 {
    u32_at(bytes, CHECKSUM_OFFSET as int)
}

/// The bytes of a page with `checksum` stored in the checksum field and every
/// other byte kept.
pub open spec fn with_checksum(bytes: Seq<u8>, checksum: u32) -> Seq<u8> {
    bytes.subrange(0, CHECKSUM_OFFSET as int) + u32_le_bytes(checksum) + bytes.subrange(
        CHECKSUM_OFFSET + CHECKSUM_SIZE,
        PAGE_SIZE as int,
    )
}

/// Whether the bytes are one page whose stored checksum is the checksum of
/// its contents.
pub open spec fn checksum_valid(bytes: Seq<u8>) -> bool {
    bytes.len() == PAGE_SIZE && stored_checksum(bytes) == page_checksum_of(bytes)
}

impl Page {
    /// Every page is exactly `PAGE_SIZE` bytes long.
    pub proof fn lemma_len(&self)
        ensures
            self@.len() == PAGE_SIZE,
    {
    }

    /// A fresh page: the default header, and a data area of zeros.
    pub fn new() -> (p: Page)
        ensures
            p@ == fresh_page_bytes(),
            p@.len() == PAGE_SIZE,
            holds_header(p@),
            header_of(p@) == default_header(),
    {
        let mut page = Page { buffer: [0u8; PAGE_SIZE] };
        let header = PageHeader::default();
        page.set_header(&header);
        proof {
            assert(page@ =~= fresh_page_bytes());
        }
        page
    }

    /// A page with the given bytes. Nothing is checked but the length: a
    /// slice that is not exactly `PAGE_SIZE` long is refused with
    /// `InvalidInput`.
    pub fn from_bytes(bytes: &[u8]) -> (r: Result<Page, Error>)
        ensures
            bytes@.len() == PAGE_SIZE ==> r is Ok && r->Ok_0@ == bytes@,
            bytes@.len() != PAGE_SIZE ==> r is Err && r->Err_0 is InvalidInput,
    {
        if bytes.len() != PAGE_SIZE {
            return Err(Error::InvalidInput(length_message("page length", PAGE_SIZE, bytes.len())));
        }
        let mut page = Page { buffer: [0u8; PAGE_SIZE] };
        let mut i: usize = 0;
        while i < PAGE_SIZE
            invariant
                i <= PAGE_SIZE,
                bytes@.len() == PAGE_SIZE,
                forall|j: int| 0 <= j < i ==> page.buffer@[j] == bytes@[j],
            decreases PAGE_SIZE - i,
        {
            page.buffer[i] = bytes[i];
            i += 1;
        }
        assert(page@ =~= bytes@);
        Ok(page)
    }

    /// The header that the first bytes of the page stand for. A type byte
    /// that is no tag is reported as `InvalidPageType` with the byte.
    pub fn header(&self) -> (r: Result<PageHeader, Error>)
        ensures
            holds_header(self@) ==> r == Ok::<PageHeader, Error>(header_of(self@)),
            !holds_header(self@) ==> r == Err::<PageHeader, Error>(
                Error::InvalidPageType(self@[PAGE_TYPE_OFFSET as int]),
            ),
    {
        PageHeader::read_from(self.buffer.as_slice())
    }

    /// Stores a header in the first bytes of the page. The data area keeps
    /// its contents.
    pub fn set_header(&mut self, header: &PageHeader)
        ensures
            final(self)@ == encode_header(*header) + old(self)@.subrange(
                PAGE_HEADER_SIZE as int,
                PAGE_SIZE as int,
            ),
            holds_header(final(self)@),
            header_of(final(self)@) == *header,
    {
        let encoded = header.to_bytes();
        let mut i: usize = 0;
        while i < PAGE_HEADER_SIZE
            invariant
                i <= PAGE_HEADER_SIZE,
                encoded@ == encode_header(*header),
                encoded@.len() == PAGE_HEADER_SIZE,
                forall|j: int| 0 <= j < i ==> self.buffer@[j] == encoded@[j],
                forall|j: int| i <= j < PAGE_SIZE ==> self.buffer@[j] == old(self).buffer@[j],
            decreases PAGE_HEADER_SIZE - i,
        {
            self.buffer[i] = encoded[i];
            i += 1;
        }
        proof {
            crate::storage::page_header::lemma_header_round_trip(*header);
            assert(self@ =~= encode_header(*header) + old(self)@.subrange(
                PAGE_HEADER_SIZE as int,
                PAGE_SIZE as int,
            ));
            assert(self@.subrange(0, PAGE_HEADER_SIZE as int) =~= encode_header(*header));
            lemma_header_of_prefix(self@, encode_header(*header));
        }
    }

    /// The data area: the bytes after the header.
    pub fn data(&self) -> (r: &[u8])
        ensures
            r@ == self@.subrange(PAGE_HEADER_SIZE as int, PAGE_SIZE as int),
            r@.len() == PAGE_USABLE_SIZE,
    {
        vstd::slice::slice_subrange(self.buffer.as_slice(), PAGE_HEADER_SIZE, PAGE_SIZE)
    }

    /// The data area, to be changed in place. The header keeps its contents.
    pub fn data_mut(&mut self) -> (r: &mut [u8])
        ensures
            r@ == old(self)@.subrange(PAGE_HEADER_SIZE as int, PAGE_SIZE as int),
            r@.len() == PAGE_USABLE_SIZE,
            final(self)@ == old(self)@.subrange(0, PAGE_HEADER_SIZE as int) + final(r)@,
    {
        let whole: &mut [u8] = &mut self.buffer;
        let (_, data) = whole.split_at_mut(PAGE_HEADER_SIZE);
        data
    }

    /// The whole page as bytes.
    pub fn raw(&self) -> (r: &[u8])
        ensures
            r@ == self@,
            r@.len() == PAGE_SIZE,
    {
        self.buffer.as_slice()
    }

    /// The whole page as bytes, to be changed in place.
    pub fn raw_mut(&mut self) -> (r: &mut [u8])
        ensures
            r@ == old(self)@,
            r@.len() == PAGE_SIZE,
            final(self)@ == final(r)@,
    {
        &mut self.buffer
    }

    /// The size of a page in bytes.
    pub fn size(&self) -> (r: usize)
        ensures
            r == PAGE_SIZE,
            r == self@.len(),
    {
        PAGE_SIZE
    }

    /// The size of the data area in bytes.
    pub fn usable_size(&self) -> (r: usize)
        ensures
            r == PAGE_USABLE_SIZE,
            r == self@.len() - PAGE_HEADER_SIZE,
    {
        PAGE_USABLE_SIZE
    }

    /// Computes the checksum of the page and stores it in the header. Every
    /// byte outside the checksum field keeps its value, and the page then
    /// passes `verify_checksum`. The buffer of a page always has the right
    /// length, so the call always succeeds.
    pub fn calculate_checksum(&mut self) -> (r: Result<(), Error>)
        ensures
            r is Ok,
            final(self)@ == with_checksum(old(self)@, page_checksum_of(old(self)@)),
            checksum_valid(final(self)@),
    {
        let checksum = match calculate_page_checksum(self.buffer.as_slice()) {
            Ok(c) => c,
            Err(e) => {
                return Err(e);
            },
        };
        put_u32_le(&mut self.buffer, CHECKSUM_OFFSET, checksum);
        proof {
            assert(self@ =~= with_checksum(old(self)@, checksum));
            lemma_stored_checksum_valid(old(self)@);
        }
        Ok(())
    }

    /// Whether the checksum stored in the header is the checksum of the
    /// page's contents.
    pub fn verify_checksum(&self) -> (r: bool)
        ensures
            r == checksum_valid(self@),
    {
        match calculate_page_checksum(self.buffer.as_slice()) {
            Ok(calculated) => {
                let stored = get_u32_le(self.buffer.as_slice(), CHECKSUM_OFFSET);
                calculated == stored
            },
            Err(_) => false,
        }
    }

    /// Whether the page fails its checksum: the negation of
    /// `verify_checksum`.
    pub fn is_corrupted(&self) -> (r: bool)
        ensures
            r == !checksum_valid(self@),
    {
        !self.verify_checksum()
    }
}

impl Default for Page {
    /// A fresh page, as `Page::new` makes it.
    fn default() -> (p: Page)
        ensures
            p@ == fresh_page_bytes(),
    {
        Page::new()
    }
}

/// What the header of a byte string is depends on its first sixteen bytes
/// only.
pub proof fn lemma_header_of_prefix(bytes: Seq<u8>, prefix: Seq<u8>)
    requires
        prefix.len() == PAGE_HEADER_SIZE,
        bytes.len() >= PAGE_HEADER_SIZE,
        bytes.subrange(0, PAGE_HEADER_SIZE as int) == prefix,
    ensures
        holds_header(bytes) == holds_header(prefix),
        header_of(bytes) == header_of(prefix),
{
    assert forall|i: int| 0 <= i < PAGE_HEADER_SIZE implies bytes[i] == prefix[i] by {
        assert(bytes.subrange(0, PAGE_HEADER_SIZE as int)[i] == bytes[i]);
    }
}

/// Checksum idempotence: whatever a page holds, once its checksum has been
/// computed and stored, the page passes verification.
pub proof fn lemma_stored_checksum_valid(bytes: Seq<u8>)
    requires
        bytes.len() == PAGE_SIZE,
    ensures
        checksum_valid(with_checksum(bytes, page_checksum_of(bytes))),
        with_checksum(bytes, page_checksum_of(bytes)).len() == PAGE_SIZE,
{
    let c = page_checksum_of(bytes);
    let stored = with_checksum(bytes, c);
    crate::storage::page_header::lemma_u32_le_round_trip(c);
    assert(stored.len() == PAGE_SIZE);
    assert(stored[8] == u32_le_bytes(c)[0] && stored[9] == u32_le_bytes(c)[1] && stored[10]
        == u32_le_bytes(c)[2] && stored[11] == u32_le_bytes(c)[3]);
    crate::storage::checksum::lemma_page_checksum_excludes_field(bytes, stored);
}

/// Corruption detection: once a page passes verification, replacing any one
/// byte outside the checksum field by another value (flipping one bit is
/// such a change) makes verification fail, and putting the old byte back
/// makes it pass again.
pub proof fn lemma_corruption_detected(bytes: Seq<u8>, i: int, v: u8)
    requires
        checksum_valid(bytes),
        0 <= i < PAGE_SIZE,
        !(CHECKSUM_OFFSET <= i < CHECKSUM_OFFSET + CHECKSUM_SIZE),
        v != bytes[i],
    ensures
        !checksum_valid(bytes.update(i, v)),
        checksum_valid(bytes.update(i, v).update(i, bytes[i])),
{
    crate::storage::checksum::lemma_page_checksum_detects_byte_change(bytes, i, v);
    assert(bytes.update(i, v).update(i, bytes[i]) =~= bytes);
}

/// A change inside the checksum field is not hashed but is still compared:
/// once a page passes verification, replacing any one byte of the stored
/// checksum by another value makes verification fail.
pub proof fn lemma_checksum_field_change_detected(bytes: Seq<u8>, i: int, v: u8)
    requires
        checksum_valid(bytes),
        CHECKSUM_OFFSET <= i < CHECKSUM_OFFSET + CHECKSUM_SIZE,
        v != bytes[i],
    ensures
        page_checksum_of(bytes.update(i, v)) == page_checksum_of(bytes),
        stored_checksum(bytes.update(i, v)) != stored_checksum(bytes),
        !checksum_valid(bytes.update(i, v)),
{
    let changed = bytes.update(i, v);
    crate::storage::checksum::lemma_page_checksum_excludes_field(bytes, changed);
    crate::storage::page_header::lemma_u32_from_le_bytes(bytes[8], bytes[9], bytes[10], bytes[11]);
    crate::storage::page_header::lemma_u32_from_le_bytes(
        changed[8],
        changed[9],
        changed[10],
        changed[11],
    );
    if stored_checksum(changed) == stored_checksum(bytes) {
        let a = seq![bytes[8], bytes[9], bytes[10], bytes[11]];
        let b = seq![changed[8], changed[9], changed[10], changed[11]];
        assert(a == b);
        assert(a[i - 8] == bytes[i]);
        assert(b[i - 8] == v);
    }
}

/// Once a page passes verification, replacing any one of its bytes by another
/// value makes verification fail, wherever in the page the byte lies.
pub proof fn lemma_any_byte_change_detected(bytes: Seq<u8>, i: int, v: u8)
    requires
        checksum_valid(bytes),
        0 <= i < PAGE_SIZE,
        v != bytes[i],
    ensures
        !checksum_valid(bytes.update(i, v)),
{
    if CHECKSUM_OFFSET <= i < CHECKSUM_OFFSET + CHECKSUM_SIZE {
        lemma_checksum_field_change_detected(bytes, i, v);
    } else {
        lemma_corruption_detected(bytes, i, v);
    }
}

} // verus!
