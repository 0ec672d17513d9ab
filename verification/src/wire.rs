//! Little-endian integers and byte runs: the primitives of every byte format
//! in this crate.

use vstd::bytes::*;
use vstd::prelude::*;
use vstd::slice::*;

verus! {

/// The bytes of a 64-bit number, least significant first.
pub open spec fn u64_bytes(x: u64) -> Seq<u8> {
    spec_u64_to_le_bytes(x)
}

/// The bytes of a 32-bit number, least significant first.
pub open spec fn u32_bytes(x: u32) -> Seq<u8> {
    spec_u32_to_le_bytes(x)
}

/// The 64-bit number at `pos`, if eight bytes are there.
pub open spec fn read_u64(bytes: Seq<u8>, pos: int) -> Option<u64> {
    if 0 <= pos && pos + 8 <= bytes.len() {
        Some(spec_u64_from_le_bytes(bytes.subrange(pos, pos + 8)))
    } else {
        None
    }
}

/// The 32-bit number at `pos`, if four bytes are there.
pub open spec fn read_u32(bytes: Seq<u8>, pos: int) -> Option<u32> {
    if 0 <= pos && pos + 4 <= bytes.len() {
        Some(spec_u32_from_le_bytes(bytes.subrange(pos, pos + 4)))
    } else {
        None
    }
}

/// The run of `len` bytes at `pos`, if it lies inside `bytes`.
pub open spec fn read_run(bytes: Seq<u8>, pos: int, len: int) -> Option<Seq<u8>> {
    if 0 <= pos && 0 <= len && pos + len <= bytes.len() {
        Some(bytes.subrange(pos, pos + len))
    } else {
        None
    }
}

/// A number written after `before` is read back at that place.
pub proof fn lemma_read_u64_written(before: Seq<u8>, x: u64, after: Seq<u8>)
    ensures
        u64_bytes(x).len() == 8,
        read_u64(before + u64_bytes(x) + after, before.len() as int) == Some(x),
{
    lemma_auto_spec_u64_to_from_le_bytes();
    let whole = before + u64_bytes(x) + after;
    assert(whole.subrange(before.len() as int, (before.len() + 8) as int) =~= u64_bytes(x));
}

/// A run written after `before` is read back at that place.
pub proof fn lemma_read_run_written(before: Seq<u8>, run: Seq<u8>, after: Seq<u8>)
    ensures
        read_run(before + run + after, before.len() as int, run.len() as int) == Some(run),
{
    let whole = before + run + after;
    assert(whole.subrange(before.len() as int, (before.len() + run.len()) as int) =~= run);
}

/// Reads the 64-bit number at `pos`.
pub fn get_u64(bytes: &[u8], pos: usize) -> (value: Option<u64>)
    ensures
        value == read_u64(bytes@, pos as int),
{
    if bytes.len() < 8 || pos > bytes.len() - 8 {
        return None;
    }
    Some(u64_from_le_bytes(slice_subrange(bytes, pos, pos + 8)))
}

/// Reads the 32-bit number at `pos`.
pub fn get_u32(bytes: &[u8], pos: usize) -> (value: Option<u32>)
    ensures
        value == read_u32(bytes@, pos as int),
{
    if bytes.len() < 4 || pos > bytes.len() - 4 {
        return None;
    }
    Some(u32_from_le_bytes(slice_subrange(bytes, pos, pos + 4)))
}

/// Copies the run of `len` bytes at `pos`.
pub fn get_run(bytes: &[u8], pos: usize, len: usize) -> (run: Option<Vec<u8>>)
    ensures
        match run {
            Some(r) => read_run(bytes@, pos as int, len as int) == Some(r@),
            None => read_run(bytes@, pos as int, len as int).is_none(),
        },
{
    if pos > bytes.len() || len > bytes.len() - pos {
        return None;
    }
    Some(slice_to_vec(slice_subrange(bytes, pos, pos + len)))
}

/// Appends `data` to `out`.
pub fn put_run(out: &mut Vec<u8>, data: &[u8])
    ensures
        final(out)@ == old(out)@ + data@,
{
    let mut i: usize = 0;
    while i < data.len()
        invariant
            i <= data@.len(),
            out@ == old(out)@ + data@.subrange(0, i as int),
        decreases data@.len() - i,
    {
        out.push(data[i]);
        assert(data@.subrange(0, i + 1) =~= data@.subrange(0, i as int).push(data@[i as int]));
        i += 1;
    }
    assert(data@.subrange(0, i as int) =~= data@);
}

/// Appends the eight bytes of `x` to `out`.
pub fn put_u64(out: &mut Vec<u8>, x: u64)
    ensures
        final(out)@ == old(out)@ + u64_bytes(x),
{
    let encoded = u64_to_le_bytes(x);
    put_run(out, encoded.as_slice());
}

/// Appends the four bytes of `x` to `out`.
pub fn put_u32(out: &mut Vec<u8>, x: u32)
    ensures
        final(out)@ == old(out)@ + u32_bytes(x),
{
    let encoded = u32_to_le_bytes(x);
    put_run(out, encoded.as_slice());
}

} // verus!
