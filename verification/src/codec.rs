//! Small verified helpers over byte vectors: equality, and building
//! length-prefixed little-endian encodings.

use vstd::bytes::{spec_u64_to_le_bytes, u64_to_le_bytes};
use vstd::prelude::*;

verus! {

/// A length-prefixed chunk: the length of `data` as 8 little-endian bytes,
/// then `data` itself.
pub open spec fn chunk_bytes(data: Seq<u8>) -> Seq<u8> {
    spec_u64_to_le_bytes(data.len() as u64) + data
}

/// Byte-for-byte equality of two vectors.
pub fn bytes_eq(a: &Vec<u8>, b: &Vec<u8>) -> (r: bool)
    ensures
        r == (a@ == b@),
{
    if a.len() != b.len() {
        assert(a@ != b@) by {
            assert(a@.len() != b@.len());
        }
        return false;
    }
    let n = a.len();
    let mut i: usize = 0;
    while i < n
        invariant
            n == a@.len() == b@.len(),
            i <= n,
            forall|j: int| 0 <= j < i ==> a@[j] == b@[j],
        decreases n - i,
    {
        if a[i] != b[i] {
            return false;
        }
        i = i + 1;
    }
    assert(a@ =~= b@);
    true
}

/// Appends the 8-byte little-endian encoding of `x` to `out`.
pub fn append_u64(out: &mut Vec<u8>, x: u64)
    ensures
        final(out)@ == old(out)@ + spec_u64_to_le_bytes(x),
{
    let mut enc = u64_to_le_bytes(x);
    out.append(&mut enc);
}

/// A fresh vector with the same bytes as `data`.
pub fn copy_bytes(data: &Vec<u8>) -> (r: Vec<u8>)
    ensures
        r@ == data@,
{
    let mut out: Vec<u8> = Vec::new();
    let n = data.len();
    let mut i: usize = 0;
    while i < n
        invariant
            n == data@.len(),
            i <= n,
            out@ == data@.take(i as int),
        decreases n - i,
    {
        out.push(data[i]);
        assert(out@ =~= data@.take(i + 1 as int));
        i = i + 1;
    }
    assert(out@ =~= data@);
    out
}

/// Appends a copy of `data` to `out`.
pub fn append_bytes(out: &mut Vec<u8>, data: &Vec<u8>)
    ensures
        final(out)@ == old(out)@ + data@,
{
    let mut copied = copy_bytes(data);
    out.append(&mut copied);
}

/// Appends the length-prefixed encoding of `data` to `out`.
pub fn append_chunk(out: &mut Vec<u8>, data: &Vec<u8>)
    ensures
        final(out)@ == old(out)@ + chunk_bytes(data@),
{
    append_u64(out, data.len() as u64);
    append_bytes(out, data);
}

} // verus!
