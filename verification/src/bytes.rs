//! Byte strings: comparison, concatenation and fixed-width fields.

use vstd::prelude::*;
use vstd::bytes::{spec_u64_from_le_bytes, spec_u64_to_le_bytes, u64_from_le_bytes, u64_to_le_bytes, lemma_auto_spec_u64_to_from_le_bytes};
use vstd::slice::slice_subrange;
use vstd::utf8::{decode_utf8, valid_utf8};

verus! {

/// The eight bytes of `value`, least significant first.
pub open spec fn le64(value: u64) -> Seq<u8> {
    spec_u64_to_le_bytes(value)
}

/// The number whose eight little-endian bytes are `bytes`.
pub open spec fn from_le64(bytes: Seq<u8>) -> u64 {
    spec_u64_from_le_bytes(bytes)
}

/// `le64` and `from_le64` are inverse to each other on eight bytes.
pub proof fn lemma_le64_inverse()
    ensures
        forall|value: u64| #[trigger] le64(value).len() == 8,
        forall|value: u64| from_le64(#[trigger] le64(value)) == value,
        forall|bytes: Seq<u8>| bytes.len() == 8 ==> le64(#[trigger] from_le64(bytes)) == bytes,
{
    lemma_auto_spec_u64_to_from_le_bytes();
}

/// Whether two byte strings hold the same bytes.
pub fn bytes_equal(left: &[u8], right: &[u8]) -> (same: bool)
    ensures
        same == (left@ == right@),
{
    if left.len() != right.len() {
        return false;
    }
    let mut index: usize = 0;
    while index < left.len()
        invariant
            left@.len() == right@.len(),
            index <= left@.len(),
            forall|k: int| 0 <= k < index ==> left@[k] == right@[k],
        decreases left@.len() - index,
    {
        if left[index] != right[index] {
            return false;
        }
        index += 1;
    }
    assert(left@ =~= right@);
    true
}

/// Appends `data` to `out`.
pub fn append_bytes(out: &mut Vec<u8>, data: &[u8])
    ensures
        final(out)@ == old(out)@ + data@,
{
    let mut index: usize = 0;
    while index < data.len()
        invariant
            index <= data@.len(),
            out@ == old(out)@ + data@.subrange(0, index as int),
        decreases data@.len() - index,
    {
        out.push(data[index]);
        index += 1;
    }
}

/// Appends the eight little-endian bytes of `value` to `out`.
pub fn append_le64(out: &mut Vec<u8>, value: u64)
    ensures
        final(out)@ == old(out)@ + le64(value),
{
    let field = u64_to_le_bytes(value);
    append_bytes(out, field.as_slice());
}

/// Reads the eight little-endian bytes at `start`.
pub fn read_le64(data: &[u8], start: usize) -> (value: u64)
    requires
        start + 8 <= data@.len(),
    ensures
        value == from_le64(data@.subrange(start as int, start + 8)),
{
    let total: usize = data.len();
    assert(start + 8 <= total);
    let field = slice_subrange(data, start, start + 8);
    u64_from_le_bytes(field)
}

/// The bytes of `data` from `start` up to `end`, as a vector of their own.
pub fn copy_range(data: &[u8], start: usize, end: usize) -> (part: Vec<u8>)
    requires
        start <= end <= data@.len(),
    ensures
        part@ == data@.subrange(start as int, end as int),
{
    let mut part: Vec<u8> = Vec::new();
    let mut index: usize = start;
    while index < end
        invariant
            start <= index <= end <= data@.len(),
            part@ == data@.subrange(start as int, index as int),
        decreases end - index,
    {
        part.push(data[index]);
        index += 1;
    }
    part
}

/// Calls `String::from_utf8`: the text that the bytes spell, where they are
/// valid UTF-8, and nothing where they are not.
#[verifier::external_body]
pub(crate) fn string_from_utf8(bytes: Vec<u8>) -> (text: Option<String>)
    ensures
        text.is_some() == valid_utf8(bytes@),
        text.is_some() ==> text.unwrap()@ == decode_utf8(bytes@),
{
    String::from_utf8(bytes).ok()
}

} // verus!
