//! Where a page lies in its backing store, and the checksum test that every
//! page read from a store passes before it is handed to a caller.
//!
//! A store is a string of bytes in which page `n` occupies the `PAGE_SIZE`
//! bytes from offset `n * PAGE_SIZE`. The functions here work on the contents
//! of a store held in memory. A caller that keeps the store in a file or a
//! mapping reads `PAGE_SIZE` bytes at `calculate_page_offset(page_id)` and
//! hands them to `read_page_from_bytes`, which gives a page only if the
//! checksum holds.

use vstd::prelude::*;
use crate::common::error::{numbered_message, Error};
use crate::storage::page::{checksum_valid, Page};
use crate::storage::page_constants::PAGE_SIZE;

verus! {

/// The largest page number whose offset fits in a `u64`.
pub const MAX_ADDRESSABLE_PAGE: u64 = 0x000F_FFFF_FFFF_FFFF;

/// The byte offset of a page in its store: `page_id * PAGE_SIZE`.
pub open spec fn page_offset(page_id: int) -> int {
    page_id * PAGE_SIZE
}

/// The length that a store must have to hold the page `page_id`.
pub open spec fn required_len(page_id: int) -> int {
    page_offset(page_id) + PAGE_SIZE
}

/// The number of the page that holds the byte at `offset`.
pub open spec fn page_of_offset(offset: int) -> int {
    offset / (PAGE_SIZE as int)
}

/// The byte offset of the page `page_id`. Every 32-bit page identifier has
/// an offset that fits.
pub fn calculate_page_offset(page_id: u64) -> (offset: u64)
    requires
        page_id <= MAX_ADDRESSABLE_PAGE,
    ensures
        offset == page_offset(page_id as int),
        offset % 4096 == 0,
{
    let size: u64 = PAGE_SIZE as u64;
    assert(size == 4096);
    assert(page_id * 4096 <= u64::MAX);
    page_id * size
}

/// The byte offset of the page `page_id`, or `None` where it does not fit in
/// a `u64`.
pub fn checked_page_offset(page_id: u64) -> (r: Option<u64>)
    ensures
        page_id <= MAX_ADDRESSABLE_PAGE ==> r == Some(page_offset(page_id as int) as u64),
        page_id > MAX_ADDRESSABLE_PAGE ==> r is None,
{
    if page_id <= MAX_ADDRESSABLE_PAGE {
        Some(calculate_page_offset(page_id))
    } else {
        None
    }
}

/// The length to which a store of length `current_len` has to grow before the
/// page `page_id` can be written into it, or `None` where it is long enough.
pub fn extension_needed(current_len: u64, page_id: u64) -> (r: Option<u64>)
    requires
        page_id < MAX_ADDRESSABLE_PAGE,
    ensures
        current_len < required_len(page_id as int) ==> r == Some(
            required_len(page_id as int) as u64,
        ),
        current_len >= required_len(page_id as int) ==> r is None,
{
    let len = calculate_page_offset(page_id) + (PAGE_SIZE as u64);
    if current_len < len {
        Some(len)
    } else {
        None
    }
}

/// The number of the page that starts at, or holds, the byte at `offset`.
pub fn page_id_of_offset(offset: u64) -> (page_id: u64)
    ensures
        page_id == page_of_offset(offset as int),
        page_id <= MAX_ADDRESSABLE_PAGE,
{
    let size: u64 = PAGE_SIZE as u64;
    assert(size == 4096);
    offset / size
}

/// The last step of every read path: turns the bytes read for the page
/// `page_id` into a page, if and only if they are one page that passes its
/// checksum. Bytes of another length are an `Io` failure (a short read); a page that
/// fails its checksum is a `Corruption` failure and is never handed out.
pub fn read_page_from_bytes(bytes: &[u8], page_id: u64) -> (r: Result<Page, Error>)
    ensures
        r is Ok <==> checksum_valid(bytes@),
        r is Ok ==> r->Ok_0@ == bytes@,
        bytes@.len() != PAGE_SIZE ==> r is Err && r->Err_0 is Io,
        bytes@.len() == PAGE_SIZE && !checksum_valid(bytes@) ==> r is Err && r->Err_0
            is Corruption,
{
    let page = match Page::from_bytes(bytes) {
        Ok(p) => p,
        Err(_) => {
            return Err(Error::Io(numbered_message("Short read for page", page_id)));
        },
    };
    if !page.verify_checksum() {
        return Err(
            Error::Corruption(numbered_message("Checksum verification failed for page", page_id)),
        );
    }
    Ok(page)
}

/// The contents of a store after a page has been written at `offset`: the
/// page's bytes there, the old bytes elsewhere, and zeros where the store had
/// to grow to reach the page.
pub open spec fn store_after_write(store: Seq<u8>, offset: int, page: Seq<u8>) -> Seq<u8> {
    Seq::new(
        if store.len() >= offset + PAGE_SIZE {
            store.len()
        } else {
            (offset + PAGE_SIZE) as nat
        },
        |i: int|
            if offset <= i < offset + PAGE_SIZE {
                page[i - offset]
            } else if i < store.len() {
                store[i]
            } else {
                0u8
            },
    )
}

/// Whether the store is long enough to hold a whole page at `offset`.
pub open spec fn holds_page_at(store: Seq<u8>, offset: int) -> bool {
    0 <= offset && offset + PAGE_SIZE <= store.len()
}

/// The bytes that the store holds for the page at `offset`.
pub open spec fn page_bytes_at(store: Seq<u8>, offset: int) -> Seq<u8> {
    store.subrange(offset, offset + PAGE_SIZE)
}

/// Writes a page into the store at a byte offset. The store grows, filled
/// with zeros, where it is too short (memory permitting); bytes outside the
/// page keep their values. The one failure is a page that would end beyond the largest
/// length a store in memory can have: it is an `Io` failure, and the store is
/// unchanged.
pub fn write_page_at_offset(store: &mut Vec<u8>, offset: u64, page: &Page) -> (r: Result<
    (),
    Error,
>)
    ensures
        offset + PAGE_SIZE <= usize::MAX ==> r is Ok && final(store)@ == store_after_write(
            old(store)@,
            offset as int,
            page@,
        ),
        offset + PAGE_SIZE > usize::MAX ==> r is Err && r->Err_0 is Io,
        offset + PAGE_SIZE > usize::MAX ==> final(store)@ == old(store)@,
{
    if offset > (usize::MAX - PAGE_SIZE) as u64 {
        return Err(Error::Io(numbered_message("No store in memory reaches offset", offset)));
    }
    let start: usize = offset as usize;
    let end: usize = start + PAGE_SIZE;
    if store.len() < end {
        store.resize(end, 0u8);
    }
    let ghost grown = store@;
    proof {
        let before = old(store)@;
        assert forall|j: int| 0 <= j < before.len() implies grown[j] == before[j] by {
            if before.len() < end {
                assert(grown.subrange(0, before.len() as int)[j] == grown[j]);
            }
        }
        assert forall|j: int| before.len() <= j < grown.len() implies grown[j] == 0u8 by {
            assert(vstd::pervasive::cloned::<u8>(0u8, grown[j]));
        }
    }
    let raw = page.raw();
    let mut i: usize = 0;
    while i < PAGE_SIZE
        invariant
            i <= PAGE_SIZE,
            end == start + PAGE_SIZE,
            raw@ == page@,
            raw@.len() == PAGE_SIZE,
            store@.len() == grown.len(),
            grown.len() >= end,
            start == offset,
            grown.len() == if old(store)@.len() >= end {
                old(store)@.len()
            } else {
                end as nat
            },
            forall|j: int| 0 <= j < old(store)@.len() ==> grown[j] == old(store)@[j],
            forall|j: int| old(store)@.len() <= j < grown.len() ==> grown[j] == 0u8,
            forall|j: int| start <= j < start + i ==> store@[j] == raw@[j - start],
            forall|j: int|
                0 <= j < grown.len() && !(start <= j < start + i) ==> store@[j] == grown[j],
        decreases PAGE_SIZE - i,
    {
        store[start + i] = raw[i];
        i += 1;
    }
    proof {
        let after = store_after_write(old(store)@, offset as int, page@);
        assert(store@.len() == after.len());
        assert forall|j: int| 0 <= j < after.len() implies store@[j] == after[j] by {
            if start <= j < start + PAGE_SIZE {
                assert(store@[j] == raw@[j - start]);
            } else {
                assert(store@[j] == grown[j]);
            }
        }
        assert(store@ =~= after);
    }
    Ok(())
}

/// Writes a page into the store at the place of the page `page_id`. Fails
/// as `write_page_at_offset` does, and then leaves the store unchanged.
pub fn write_page_to_file(store: &mut Vec<u8>, page_id: u64, page: &Page) -> (r: Result<
    (),
    Error,
>)
    ensures
        required_len(page_id as int) <= usize::MAX ==> r is Ok && final(store)@
            == store_after_write(old(store)@, page_offset(page_id as int), page@),
        required_len(page_id as int) > usize::MAX ==> r is Err && r->Err_0 is Io,
        required_len(page_id as int) > usize::MAX ==> final(store)@ == old(store)@,
{
    match checked_page_offset(page_id) {
        Some(offset) => write_page_at_offset(store, offset, page),
        None => Err(Error::Io(numbered_message("No store in memory reaches page", page_id))),
    }
}

/// Reads the page at a byte offset of the store. The page is handed out if
/// and only if the store holds a whole page there and the page passes its
/// checksum. A store that is too short is an `Io` failure; a page that fails
/// its checksum is a `Corruption` failure.
pub fn read_page_at_offset(store: &[u8], offset: u64) -> (r: Result<Page, Error>)
    ensures
        r is Ok <==> holds_page_at(store@, offset as int) && checksum_valid(
            page_bytes_at(store@, offset as int),
        ),
        r is Ok ==> r->Ok_0@ == page_bytes_at(store@, offset as int),
        !holds_page_at(store@, offset as int) ==> r is Err && r->Err_0 is Io,
        holds_page_at(store@, offset as int) && !checksum_valid(
            page_bytes_at(store@, offset as int),
        ) ==> r is Err && r->Err_0 is Corruption,
{
    let len = store.len();
    if len < PAGE_SIZE || offset > (len - PAGE_SIZE) as u64 {
        return Err(Error::Io(numbered_message("Short read at offset", offset)));
    }
    let start: usize = offset as usize;
    let bytes = vstd::slice::slice_subrange(store, start, start + PAGE_SIZE);
    read_page_from_bytes(bytes, page_id_of_offset(offset))
}

/// Reads the page `page_id` of the store. The page is handed out if and only
/// if the store holds it whole and it passes its checksum; otherwise the
/// failure is `Io` for a store that is too short and `Corruption` for a page
/// that fails its checksum.
pub fn read_page_from_file(store: &[u8], page_id: u64) -> (r: Result<Page, Error>)
    ensures
        r is Ok <==> holds_page_at(store@, page_offset(page_id as int)) && checksum_valid(
            page_bytes_at(store@, page_offset(page_id as int)),
        ),
        r is Ok ==> r->Ok_0@ == page_bytes_at(store@, page_offset(page_id as int)),
        !holds_page_at(store@, page_offset(page_id as int)) ==> r is Err && r->Err_0 is Io,
        holds_page_at(store@, page_offset(page_id as int)) && !checksum_valid(
            page_bytes_at(store@, page_offset(page_id as int)),
        ) ==> r is Err && r->Err_0 is Corruption,
{
    match checked_page_offset(page_id) {
        Some(offset) => read_page_at_offset(store, offset),
        None => {
            assert(store@.len() <= usize::MAX) by {
                assert(store@.len() == store.len());
            }
            Err(Error::Io(numbered_message("Short read for page", page_id)))
        },
    }
}

/// Reads the page `page_id` of the store, as `read_page_from_file` does.
pub fn read_page_by_id(store: &[u8], page_id: u64) -> (r: Result<Page, Error>)
    ensures
        r is Ok <==> holds_page_at(store@, page_offset(page_id as int)) && checksum_valid(
            page_bytes_at(store@, page_offset(page_id as int)),
        ),
        r is Ok ==> r->Ok_0@ == page_bytes_at(store@, page_offset(page_id as int)),
        !holds_page_at(store@, page_offset(page_id as int)) ==> r is Err && r->Err_0 is Io,
        holds_page_at(store@, page_offset(page_id as int)) && !checksum_valid(
            page_bytes_at(store@, page_offset(page_id as int)),
        ) ==> r is Err && r->Err_0 is Corruption,
{
    read_page_from_file(store, page_id)
}

/// What was written is what is read: after a page has been written at an
/// offset, the store holds a whole page there, and its bytes are those of
/// the page that was written.
pub proof fn lemma_read_after_write(store: Seq<u8>, offset: int, page: Seq<u8>)
    requires
        0 <= offset,
        page.len() == PAGE_SIZE,
    ensures
        holds_page_at(store_after_write(store, offset, page), offset),
        page_bytes_at(store_after_write(store, offset, page), offset) == page,
{
    assert(page_bytes_at(store_after_write(store, offset, page), offset) =~= page);
}

/// A write leaves every other page alone: a page that the store held before
/// and that does not overlap the one written is held after, unchanged.
pub proof fn lemma_write_keeps_other_pages(
    store: Seq<u8>,
    offset: int,
    page: Seq<u8>,
    other: int,
)
    requires
        0 <= offset,
        page.len() == PAGE_SIZE,
        holds_page_at(store, other),
        other + PAGE_SIZE <= offset || offset + PAGE_SIZE <= other,
    ensures
        holds_page_at(store_after_write(store, offset, page), other),
        page_bytes_at(store_after_write(store, offset, page), other) == page_bytes_at(
            store,
            other,
        ),
{
    assert(page_bytes_at(store_after_write(store, offset, page), other) =~= page_bytes_at(
        store,
        other,
    ));
}

/// A page damaged in the store is never read. Where a store holds a page
/// that passes its checksum, and one byte of that page is replaced in the
/// store by another value, the store still holds a whole page there, and the
/// page fails its checksum: a read of it is a `Corruption` failure.
pub proof fn lemma_damaged_page_is_refused(store: Seq<u8>, offset: int, i: int, v: u8)
    requires
        holds_page_at(store, offset),
        checksum_valid(page_bytes_at(store, offset)),
        offset <= i < offset + PAGE_SIZE,
        v != store[i],
    ensures
        holds_page_at(store.update(i, v), offset),
        !checksum_valid(page_bytes_at(store.update(i, v), offset)),
{
    let page = page_bytes_at(store, offset);
    assert(page[i - offset] == store[i]);
    assert(page_bytes_at(store.update(i, v), offset) =~= page.update(i - offset, v));
    crate::storage::page::lemma_any_byte_change_detected(page, i - offset, v);
}

/// Pages do not overlap in the store: the page `a` ends where the page
/// `a + 1` starts, so that two different pages are at least a page apart, and
/// the offset of a page leads back to its number.
pub proof fn lemma_pages_disjoint(a: int, b: int)
    requires
        0 <= a < b,
    ensures
        page_offset(a) + PAGE_SIZE <= page_offset(b),
        page_of_offset(page_offset(a)) == a,
{
    assert(a * 4096 + 4096 <= b * 4096) by (nonlinear_arith)
        requires
            a < b,
    ;
    assert((a * 4096) / 4096 == a) by (nonlinear_arith);
}

/// Pages written under different numbers do not disturb each other: after
/// the page `written` has been written, the store holds the page `other` as
/// it held it before, and holds under `written` the bytes that were written.
pub proof fn lemma_write_keeps_other_page_ids(
    store: Seq<u8>,
    written: int,
    page: Seq<u8>,
    other: int,
)
    requires
        0 <= written,
        0 <= other,
        written != other,
        page.len() == PAGE_SIZE,
        holds_page_at(store, page_offset(other)),
    ensures
        holds_page_at(store_after_write(store, page_offset(written), page), page_offset(other)),
        page_bytes_at(store_after_write(store, page_offset(written), page), page_offset(other))
            == page_bytes_at(store, page_offset(other)),
        page_bytes_at(store_after_write(store, page_offset(written), page), page_offset(written))
            == page,
{
    if written < other {
        lemma_pages_disjoint(written, other);
    } else {
        lemma_pages_disjoint(other, written);
    }
    assert(0 <= page_offset(written)) by (nonlinear_arith)
        requires
            0 <= written,
    ;
    lemma_write_keeps_other_pages(store, page_offset(written), page, page_offset(other));
    lemma_read_after_write(store, page_offset(written), page);
}

} // verus!
