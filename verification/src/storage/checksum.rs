//! CRC-32 checksums of byte strings and of whole pages.
//!
//! The checksum of a page covers every byte of the page but the four bytes of
//! the checksum field itself, so that the value can be stored in the page
//! without changing what it is computed from.

use vstd::prelude::*;
use crate::common::error::{length_message, Error};
use crate::storage::page_constants::PAGE_SIZE;

verus! {

/// Offset of the checksum field in a page.
pub const CHECKSUM_OFFSET: usize = 8;

/// Width of the checksum field in bytes.
pub const CHECKSUM_SIZE: usize = 4;

/// One step of the CRC-32 shift register: the state moves one bit to the
/// right, and the reflected IEEE polynomial is added where a one fell out.
pub open spec fn crc32_shift(x: u32) -> u32 {
    if x & 1 == 1 {
        (x >> 1) ^ 0xEDB8_8320u32
    } else {
        x >> 1
    }
}

/// Eight steps of the shift register.
pub open spec fn crc32_shift8(x: u32) -> u32 {
    crc32_shift(
        crc32_shift(
            crc32_shift(
                crc32_shift(crc32_shift(crc32_shift(crc32_shift(crc32_shift(x))))),
            ),
        ),
    )
}

/// The register after one more byte has been fed into it.
pub open spec fn crc32_feed(state: u32, byte: u8) -> u32 {
    crc32_shift8(state ^ (byte as u32))
}

/// The register after a byte string has been fed into it, first byte first.
pub open spec fn crc32_fold(state: u32, bytes: Seq<u8>) -> u32
    decreases bytes.len(),
{
    if bytes.len() == 0 {
        state
    } else {
        crc32_feed(crc32_fold(state, bytes.drop_last()), bytes.last())
    }
}

/// The CRC-32 of a byte string that continues one whose CRC-32 is `prev`.
pub open spec fn crc32_resume(prev: u32, bytes: Seq<u8>) -> u32 {
    !crc32_fold(!prev, bytes)
}

/// The CRC-32 (IEEE 802.3) of a byte string.
pub open spec fn crc32_of(bytes: Seq<u8>) -> u32 {
    crc32_resume(0, bytes)
}

/// The bytes of a page that its checksum covers: all but the checksum field.
pub open spec fn checksummed_bytes(page: Seq<u8>) -> Seq<u8>
    recommends
        page.len() == PAGE_SIZE,
{
    page.subrange(0, CHECKSUM_OFFSET as int) + page.subrange(
        CHECKSUM_OFFSET + CHECKSUM_SIZE,
        PAGE_SIZE as int,
    )
}

/// The checksum of a page: the CRC-32 of all its bytes but the checksum field.
pub open spec fn page_checksum_of(page: Seq<u8>) -> u32
    recommends
        page.len() == PAGE_SIZE,
{
    crc32_of(checksummed_bytes(page))
}

/// `crc32fast::Hasher`, an in-progress CRC-32 computation. Nothing of its
/// inside is visible here: `hasher_value` and `hasher_amount` stand for the
/// two fields that the contracts below speak of.
#[verifier::external_type_specification]
#[verifier::external_body]
pub struct ExHasher(crc32fast::Hasher);

/// The state of a hasher: the CRC-32 of all the bytes that it has been given
/// so far, which is what `finalize` hands out.
pub uninterp spec fn hasher_value(h: crc32fast::Hasher) -> u32;

/// The number of bytes that a hasher has been given so far.
pub uninterp spec fn hasher_amount(h: crc32fast::Hasher) -> nat;

/// `crc32fast::Hasher::new`: a hasher that has been given no byte. Its state
/// is zero, the CRC-32 of the empty string, and its byte count is zero.
pub assume_specification[ crc32fast::Hasher::new ]() -> (h: crc32fast::Hasher)
    ensures
        hasher_value(h) == 0,
        hasher_amount(h) == 0,
;

/// `crc32fast::Hasher::update`: the hasher takes the bytes of `buf` in. The
/// crate complements the old state, feeds it the bytes one after the other
/// (each byte is added to the low end of the register, which then makes
/// eight steps: the crate looks the eight steps up in a table, and its wider
/// code paths give the same value), and complements the result: that is
/// `crc32_resume`. The byte count grows by the length of `buf`; it is a `u64`
/// that the crate adds to without a check, so the sum has to fit.
pub assume_specification[ crc32fast::Hasher::update ](h: &mut crc32fast::Hasher, buf: &[u8])
    requires
        hasher_amount(*old(h)) + buf@.len() <= u64::MAX,
    ensures
        hasher_value(*final(h)) == crc32_resume(hasher_value(*old(h)), buf@),
        hasher_amount(*final(h)) == hasher_amount(*old(h)) + buf@.len(),
;

/// `crc32fast::Hasher::finalize`: hands out the state of the hasher.
pub assume_specification[ crc32fast::Hasher::finalize ](h: crc32fast::Hasher) -> (r: u32)
    ensures
        r == hasher_value(h),
;

/// Computes the CRC-32 of `data`.
pub fn calculate_crc32(data: &[u8]) -> (r: u32)
    ensures
        r == crc32_of(data@),
{
    let mut hasher = crc32fast::Hasher::new();
    assert(data@.len() == data.len());
    hasher.update(data);
    hasher.finalize()
}

/// One step of the shift register, as `crc32_shift` defines it.
fn shift_step(x: u32) -> (r: u32)
    ensures
        r == crc32_shift(x),
{
    if x & 1 == 1 {
        (x >> 1) ^ 0xEDB8_8320u32
    } else {
        x >> 1
    }
}

/// Computes the CRC-32 of `data` bit by bit, as the definition reads: eight
/// steps of the shift register for every byte. It is slow, and it is here so
/// that the definition can be run: `calculate_crc32` gives the same value on
/// every input.
pub fn crc32_by_definition(data: &[u8]) -> (r: u32)
    ensures
        r == crc32_of(data@),
{
    let mut state: u32 = !0u32;
    let mut i: usize = 0;
    while i < data.len()
        invariant
            i <= data@.len(),
            state == crc32_fold(!0u32, data@.subrange(0, i as int)),
        decreases data@.len() - i,
    {
        let mut x: u32 = state ^ (data[i] as u32);
        x = shift_step(shift_step(shift_step(shift_step(x))));
        x = shift_step(shift_step(shift_step(shift_step(x))));
        proof {
            let fed = data@.subrange(0, i + 1);
            assert(fed.drop_last() =~= data@.subrange(0, i as int));
            assert(fed.last() == data@[i as int]);
        }
        state = x;
        i += 1;
    }
    assert(data@.subrange(0, i as int) =~= data@);
    !state
}

/// Computes the checksum of a page: the CRC-32 of bytes `[0, 8)` and
/// `[12, 4096)`. A buffer that is not exactly one page long is refused with
/// `InvalidInput`, and no value is computed for it.
pub fn calculate_page_checksum(page_data: &[u8]) -> (r: Result<u32, Error>)
    ensures
        page_data@.len() == PAGE_SIZE ==> r == Ok::<u32, Error>(page_checksum_of(page_data@)),
        page_data@.len() != PAGE_SIZE ==> r is Err && r->Err_0 is InvalidInput,
{
    if page_data.len() != PAGE_SIZE {
        return Err(Error::InvalidInput(length_message("page size", PAGE_SIZE, page_data.len())));
    }
    let mut hasher = crc32fast::Hasher::new();
    hasher.update(&page_data[0..CHECKSUM_OFFSET]);
    hasher.update(&page_data[CHECKSUM_OFFSET + CHECKSUM_SIZE..PAGE_SIZE]);
    let checksum = hasher.finalize();
    proof {
        lemma_crc32_resume_concat(
            0,
            page_data@.subrange(0, CHECKSUM_OFFSET as int),
            page_data@.subrange(CHECKSUM_OFFSET + CHECKSUM_SIZE, PAGE_SIZE as int),
        );
    }
    Ok(checksum)
}

/// Feeding two byte strings one after the other is feeding their
/// concatenation.
pub proof fn lemma_crc32_fold_concat(state: u32, a: Seq<u8>, b: Seq<u8>)
    ensures
        crc32_fold(crc32_fold(state, a), b) == crc32_fold(state, a + b),
    decreases b.len(),
{
    if b.len() == 0 {
        assert(a + b =~= a);
    } else {
        lemma_crc32_fold_concat(state, a, b.drop_last());
        assert((a + b).drop_last() =~= a + b.drop_last());
        assert((a + b).last() == b.last());
    }
}

/// Continuing a CRC-32 over `a` and then over `b` is continuing it over the
/// concatenation of `a` and `b`.
pub proof fn lemma_crc32_resume_concat(prev: u32, a: Seq<u8>, b: Seq<u8>)
    ensures
        crc32_resume(crc32_resume(prev, a), b) == crc32_resume(prev, a + b),
{
    let mid = crc32_fold(!prev, a);
    assert(!!mid == mid) by (bit_vector);
    lemma_crc32_fold_concat(!prev, a, b);
}

/// The CRC-32 of the empty byte string is zero.
pub proof fn lemma_crc32_empty()
    ensures
        crc32_of(Seq::<u8>::empty()) == 0,
{
    assert(!!0u32 == 0u32) by (bit_vector);
}

/// The shift register loses nothing: two states that one step maps to the same
/// state are the same state.
proof fn lemma_shift_injective(x: u32, y: u32)
    requires
        crc32_shift(x) == crc32_shift(y),
    ensures
        x == y,
{
    assert((if x & 1 == 1 {
        (x >> 1) ^ 0xEDB8_8320u32
    } else {
        x >> 1
    }) == (if y & 1 == 1 {
        (y >> 1) ^ 0xEDB8_8320u32
    } else {
        y >> 1
    }) ==> x == y) by (bit_vector);
}

/// Eight steps of the shift register lose nothing either.
proof fn lemma_shift8_injective(x: u32, y: u32)
    requires
        crc32_shift8(x) == crc32_shift8(y),
    ensures
        x == y,
{
    let x1 = crc32_shift(x);
    let y1 = crc32_shift(y);
    let x2 = crc32_shift(x1);
    let y2 = crc32_shift(y1);
    let x3 = crc32_shift(x2);
    let y3 = crc32_shift(y2);
    let x4 = crc32_shift(x3);
    let y4 = crc32_shift(y3);
    let x5 = crc32_shift(x4);
    let y5 = crc32_shift(y4);
    let x6 = crc32_shift(x5);
    let y6 = crc32_shift(y5);
    let x7 = crc32_shift(x6);
    let y7 = crc32_shift(y6);
    lemma_shift_injective(x7, y7);
    lemma_shift_injective(x6, y6);
    lemma_shift_injective(x5, y5);
    lemma_shift_injective(x4, y4);
    lemma_shift_injective(x3, y3);
    lemma_shift_injective(x2, y2);
    lemma_shift_injective(x1, y1);
    lemma_shift_injective(x, y);
}

/// Feeding a byte keeps two different states different, and feeding two
/// different bytes into one state gives two different states.
proof fn lemma_feed_injective(s1: u32, b1: u8, s2: u32, b2: u8)
    requires
        crc32_feed(s1, b1) == crc32_feed(s2, b2),
    ensures
        b1 == b2 ==> s1 == s2,
        s1 == s2 ==> b1 == b2,
{
    lemma_shift8_injective(s1 ^ (b1 as u32), s2 ^ (b2 as u32));
    assert(s1 ^ (b1 as u32) == s2 ^ (b2 as u32) ==> (b1 == b2 ==> s1 == s2)) by (bit_vector);
    assert(s1 ^ (b1 as u32) == s2 ^ (b2 as u32) ==> (s1 == s2 ==> b1 == b2)) by (bit_vector);
}

/// Two byte strings of one length that differ in exactly one place leave the
/// register in different states.
proof fn lemma_fold_detects_byte_change(state: u32, bytes: Seq<u8>, i: int, v: u8)
    requires
        0 <= i < bytes.len(),
        v != bytes[i],
    ensures
        crc32_fold(state, bytes.update(i, v)) != crc32_fold(state, bytes),
    decreases bytes.len(),
{
    let changed = bytes.update(i, v);
    if i == bytes.len() - 1 {
        assert(changed.drop_last() =~= bytes.drop_last());
        if crc32_fold(state, changed) == crc32_fold(state, bytes) {
            lemma_feed_injective(
                crc32_fold(state, changed.drop_last()),
                changed.last(),
                crc32_fold(state, bytes.drop_last()),
                bytes.last(),
            );
        }
    } else {
        assert(changed.drop_last() =~= bytes.drop_last().update(i, v));
        lemma_fold_detects_byte_change(state, bytes.drop_last(), i, v);
        if crc32_fold(state, changed) == crc32_fold(state, bytes) {
            lemma_feed_injective(
                crc32_fold(state, changed.drop_last()),
                changed.last(),
                crc32_fold(state, bytes.drop_last()),
                bytes.last(),
            );
        }
    }
}

/// CRC-32 detects every change of a single byte: a byte string and the same
/// string with one byte replaced by another value never have the same CRC-32.
/// A flipped bit is one such change.
pub proof fn lemma_crc32_detects_byte_change(bytes: Seq<u8>, i: int, v: u8)
    requires
        0 <= i < bytes.len(),
        v != bytes[i],
    ensures
        crc32_of(bytes.update(i, v)) != crc32_of(bytes),
{
    lemma_fold_detects_byte_change(!0u32, bytes, i, v);
    let x = crc32_fold(!0u32, bytes.update(i, v));
    let y = crc32_fold(!0u32, bytes);
    assert(!x == !y ==> x == y) by (bit_vector);
}

/// The checksum of a page does not depend on the checksum field: two pages
/// that agree on every byte outside `[8, 12)` have the same checksum.
pub proof fn lemma_page_checksum_excludes_field(a: Seq<u8>, b: Seq<u8>)
    requires
        a.len() == PAGE_SIZE,
        b.len() == PAGE_SIZE,
        forall|i: int|
            0 <= i < PAGE_SIZE && !(CHECKSUM_OFFSET <= i < CHECKSUM_OFFSET + CHECKSUM_SIZE)
                ==> a[i] == b[i],
    ensures
        page_checksum_of(a) == page_checksum_of(b),
{
    assert(checksummed_bytes(a) =~= checksummed_bytes(b));
}

/// The checksum of a page detects every change of a single byte outside the
/// checksum field.
pub proof fn lemma_page_checksum_detects_byte_change(page: Seq<u8>, i: int, v: u8)
    requires
        page.len() == PAGE_SIZE,
        0 <= i < PAGE_SIZE,
        !(CHECKSUM_OFFSET <= i < CHECKSUM_OFFSET + CHECKSUM_SIZE),
        v != page[i],
    ensures
        page_checksum_of(page.update(i, v)) != page_checksum_of(page),
{
    let covered = checksummed_bytes(page);
    if i < CHECKSUM_OFFSET {
        assert(checksummed_bytes(page.update(i, v)) =~= covered.update(i, v));
        lemma_crc32_detects_byte_change(covered, i, v);
    } else {
        assert(checksummed_bytes(page.update(i, v)) =~= covered.update(i - CHECKSUM_SIZE, v));
        lemma_crc32_detects_byte_change(covered, i - CHECKSUM_SIZE, v);
    }
}

} // verus!
