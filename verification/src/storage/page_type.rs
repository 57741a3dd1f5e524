//! The tag that says what a page stores, and its one-byte encoding.

use vstd::prelude::*;
use crate::common::error::Error;

verus! {

/// What a page stores. On disk the tag is one byte, `0x01` to `0x09`.
#[derive(Debug, Clone, Copy, PartialEq, Eq, Structural)]
pub enum PageType {
    /// Database file header (tag `0x01`).
    Header,
    /// Table definitions (tag `0x02`).
    TableMetadata,
    /// Row data (tag `0x03`).
    Data,
    /// B+Tree internal node: keys and child page references (tag `0x04`).
    BTreeInternal,
    /// B+Tree leaf node: keys and values (tag `0x05`).
    BTreeLeaf,
    /// Vector similarity index (tag `0x06`).
    VectorIndex,
    /// Continuation of a value that does not fit in one page (tag `0x07`).
    Overflow,
    /// List of free pages (tag `0x08`).
    FreeList,
    /// Bloom filter (tag `0x09`).
    BloomFilter,
}

/// The byte that stands for a page type on disk.
pub open spec fn tag_of(t: PageType) -> u8 {
    match t {
        PageType::Header => 0x01,
        PageType::TableMetadata => 0x02,
        PageType::Data => 0x03,
        PageType::BTreeInternal => 0x04,
        PageType::BTreeLeaf => 0x05,
        PageType::VectorIndex => 0x06,
        PageType::Overflow => 0x07,
        PageType::FreeList => 0x08,
        PageType::BloomFilter => 0x09,
    }
}

/// Whether a byte is the tag of some page type.
pub open spec fn is_tag(byte: u8) -> bool {
    1 <= byte <= 9
}

/// The page type that a tag byte stands for. Meaningful where `is_tag` holds.
pub open spec fn type_of_tag(byte: u8) -> PageType {
    if byte == 0x01 {
        PageType::Header
    } else if byte == 0x02 {
        PageType::TableMetadata
    } else if byte == 0x03 {
        PageType::Data
    } else if byte == 0x04 {
        PageType::BTreeInternal
    } else if byte == 0x05 {
        PageType::BTreeLeaf
    } else if byte == 0x06 {
        PageType::VectorIndex
    } else if byte == 0x07 {
        PageType::Overflow
    } else if byte == 0x08 {
        PageType::FreeList
    } else {
        PageType::BloomFilter
    }
}

/// What decoding a byte gives: the page type for a tag, and otherwise the
/// failure that carries the offending byte.
pub open spec fn decode_tag(byte: u8) -> Result<PageType, Error> {
    if is_tag(byte) {
        Ok(type_of_tag(byte))
    } else {
        Err(Error::InvalidPageType(byte))
    }
}

impl TryFrom<u8> for PageType {
    type Error = Error;

    /// Decodes a tag byte. Succeeds for the nine defined tags and for no other
    /// byte; a failure reports the byte it was given.
    fn try_from(value: u8) -> (r: Result<PageType, Error>)
        ensures
            r == decode_tag(value),
            r is Ok <==> is_tag(value),
            r is Ok ==> tag_of(r->Ok_0) == value,
            r is Err ==> r->Err_0 == Error::InvalidPageType(value),
    {
        match value {
            0x01 => Ok(PageType::Header),
            0x02 => Ok(PageType::TableMetadata),
            0x03 => Ok(PageType::Data),
            0x04 => Ok(PageType::BTreeInternal),
            0x05 => Ok(PageType::BTreeLeaf),
            0x06 => Ok(PageType::VectorIndex),
            0x07 => Ok(PageType::Overflow),
            0x08 => Ok(PageType::FreeList),
            0x09 => Ok(PageType::BloomFilter),
            _ => Err(Error::InvalidPageType(value)),
        }
    }
}

impl vstd::std_specs::convert::TryFromSpecImpl<u8> for PageType {
    open spec fn obeys_try_from_spec() -> bool {
        true
    }

    open spec fn try_from_spec(value: u8) -> Result<PageType, Error> {
        decode_tag(value)
    }
}

impl PageType {
    /// The tag byte of this page type.
    pub fn as_u8(&self) -> (r: u8)
        ensures
            r == tag_of(*self),
            is_tag(r),
    {
        match self {
            PageType::Header => 0x01,
            PageType::TableMetadata => 0x02,
            PageType::Data => 0x03,
            PageType::BTreeInternal => 0x04,
            PageType::BTreeLeaf => 0x05,
            PageType::VectorIndex => 0x06,
            PageType::Overflow => 0x07,
            PageType::FreeList => 0x08,
            PageType::BloomFilter => 0x09,
        }
    }

    /// Whether this is a B+Tree page, leaf or internal.
    pub fn is_btree_page(&self) -> (r: bool)
        ensures
            r == (*self == PageType::BTreeLeaf || *self == PageType::BTreeInternal),
    {
        matches!(self, PageType::BTreeLeaf | PageType::BTreeInternal)
    }

    /// Whether this is a free-list page.
    pub fn is_free_list(&self) -> (r: bool)
        ensures
            r == (*self == PageType::FreeList),
    {
        matches!(self, PageType::FreeList)
    }

    /// Whether this is an overflow page.
    pub fn is_overflow(&self) -> (r: bool)
        ensures
            r == (*self == PageType::Overflow),
    {
        matches!(self, PageType::Overflow)
    }

    /// Whether this is a data page.
    pub fn is_data(&self) -> (r: bool)
        ensures
            r == (*self == PageType::Data),
    {
        matches!(self, PageType::Data)
    }

    /// Whether this is a metadata page: the file header or table metadata.
    pub fn is_metadata(&self) -> (r: bool)
        ensures
            r == (*self == PageType::Header || *self == PageType::TableMetadata),
    {
        matches!(self, PageType::Header | PageType::TableMetadata)
    }
}

/// Encoding a page type and decoding the byte gives the page type back.
pub proof fn lemma_tag_round_trip(t: PageType)
    ensures
        is_tag(tag_of(t)),
        decode_tag(tag_of(t)) == Ok::<PageType, Error>(t),
{
}

/// Decoding succeeds on exactly nine of the 256 bytes, and a byte that decodes
/// is the tag of what it decodes to.
pub proof fn lemma_decode_total(byte: u8)
    ensures
        decode_tag(byte) is Ok <==> 1 <= byte <= 9,
        decode_tag(byte) is Ok ==> tag_of(decode_tag(byte)->Ok_0) == byte,
        decode_tag(byte) is Err ==> decode_tag(byte)->Err_0 == Error::InvalidPageType(byte),
        Set::new(|b: u8| decode_tag(b) is Ok).len() == 9,
        Set::new(|b: u8| decode_tag(b) is Ok).finite(),
{
    let s = Set::new(|b: u8| decode_tag(b) is Ok);
    let t = set![1u8, 2u8, 3u8, 4u8, 5u8, 6u8, 7u8, 8u8, 9u8];
    assert(s =~= t);
    assert(t.len() == 9 && t.finite()) by {
        broadcast use vstd::set::group_set_axioms;
    }
}

} // verus!
