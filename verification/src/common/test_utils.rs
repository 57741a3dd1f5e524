//! Byte patterns and comparisons for exercising the storage layer.

use vstd::prelude::*;

verus! {

/// The bytes `0, 1, .., 255, 0, 1, ..`: `size` of them.
pub open spec fn counting_pattern(size: nat) -> Seq<u8> {
    Seq::new(size, |i: int| (i % 256) as u8)
}

/// `size` bytes that count up from zero and wrap around after 255.
pub fn generate_test_data(size: usize) -> (data: Vec<u8>)
    ensures
        data@ == counting_pattern(size as nat),
{
    let mut data: Vec<u8> = Vec::new();
    let mut i: usize = 0;
    while i < size
        invariant
            i <= size,
            data@ == counting_pattern(i as nat),
        decreases size - i,
    {
        data.push((i % 256) as u8);
        i += 1;
        assert(data@ =~= counting_pattern(i as nat));
    }
    data
}

/// A buffer of `page_size` bytes, each of them `pattern`.
pub fn create_test_page(page_size: usize, pattern: u8) -> (page: Vec<u8>)
    ensures
        page@ == Seq::new(page_size as nat, |i: int| pattern),
{
    let page = vec![pattern; page_size];
    assert(page@ =~= Seq::new(page_size as nat, |i: int| pattern));
    page
}

/// The first place where two byte strings differ: the first index at which
/// both have a byte and the bytes differ, or, where one is a proper prefix
/// of the other, its length. `None` where the two are equal.
pub fn first_difference(actual: &[u8], expected: &[u8]) -> (r: Option<usize>)
    ensures
        r is None <==> actual@ == expected@,
        r matches Some(at) ==> {
            &&& at <= actual@.len()
            &&& at <= expected@.len()
            &&& actual@.subrange(0, at as int) == expected@.subrange(0, at as int)
            &&& (at == actual@.len() || at == expected@.len() || actual@[at as int]
                != expected@[at as int])
            &&& !(at == actual@.len() && at == expected@.len())
        },
{
    let mut i: usize = 0;
    while i < actual.len() && i < expected.len()
        invariant
            i <= actual@.len(),
            i <= expected@.len(),
            actual@.subrange(0, i as int) == expected@.subrange(0, i as int),
        decreases actual@.len() - i,
    {
        if actual[i] != expected[i] {
            return Some(i);
        }
        assert(actual@.subrange(0, i + 1) =~= actual@.subrange(0, i as int).push(
            actual@[i as int],
        ));
        assert(expected@.subrange(0, i + 1) =~= expected@.subrange(0, i as int).push(
            expected@[i as int],
        ));
        i += 1;
    }
    if actual.len() != expected.len() {
        Some(i)
    } else {
        assert(actual@ =~= actual@.subrange(0, i as int));
        assert(expected@ =~= expected@.subrange(0, i as int));
        None
    }
}

/// States that two byte strings are equal. A caller has to know that they
/// are: the function is for places where anything else is a defect.
pub fn assert_bytes_equal(actual: &[u8], expected: &[u8], context: &str)
    requires
        actual@ == expected@,
{
    match first_difference(actual, expected) {
        None => {},
        Some(_) => vstd::pervasive::unreached(),
    }
}

} // verus!
