//! Bounds-checked reads of big-endian integers and zero-terminated byte
//! strings from a byte slice, and the one write the index needs.
use crate::error::SliceReadError;
use vstd::prelude::*;
use vstd::slice::slice_subrange;

verus! {

/// The big-endian 32-bit number that the four bytes from `pos` on spell.
pub open spec fn spec_be_u32(s: Seq<u8>, pos: int) -> u32 {
    (s[pos] as int * 0x100_0000 + s[pos + 1] as int * 0x1_0000 + s[pos + 2] as int * 0x100
        + s[pos + 3] as int) as u32
}

/// The big-endian 64-bit number that the eight bytes from `pos` on spell.
pub open spec fn spec_be_u64(s: Seq<u8>, pos: int) -> u64 {
    (spec_be_u32(s, pos) as int * 0x1_0000_0000 + spec_be_u32(s, pos + 4) as int) as u64
}

/// The first position in `[from, to)` that holds a zero byte, or `to` where
/// none does (also where `from` is not below `to`).
pub open spec fn spec_nul_pos(s: Seq<u8>, from: int, to: int) -> int
    decreases to - from,
{
    if from >= to {
        to
    } else if s[from] == 0 {
        from
    } else {
        spec_nul_pos(s, from + 1, to)
    }
}

/// `spec_nul_pos` in words: the result lies between the bounds, no byte
/// before it is zero, and the byte at it is zero unless it is `to`.
pub proof fn lemma_nul_pos(s: Seq<u8>, from: int, to: int)
    requires
        from <= to,
    ensures
        from <= spec_nul_pos(s, from, to) <= to,
        forall|i: int| from <= i < spec_nul_pos(s, from, to) ==> s[i] != 0,
        spec_nul_pos(s, from, to) < to ==> s[spec_nul_pos(s, from, to)] == 0,
    decreases to - from,
{
    if from < to && s[from] != 0 {
        lemma_nul_pos(s, from + 1, to);
    }
}

/// Reads a big-endian `u32` at `pos`, which need not be aligned.
pub fn read_be_u32(buf: &[u8], pos: usize) -> (r: Result<u32, SliceReadError>)
    ensures
        r is Ok <==> pos + 4 <= buf@.len(),
        r matches Ok(v) ==> v == spec_be_u32(buf@, pos as int),
{
    let len: usize = buf.len();
    if len < 4 || pos > len - 4 {
        return Err(SliceReadError::UnexpectedEndOfInput);
    }
    let b0: u32 = buf[pos] as u32;
    let b1: u32 = buf[pos + 1] as u32;
    let b2: u32 = buf[pos + 2] as u32;
    let b3: u32 = buf[pos + 3] as u32;
    Ok(b0 * 0x100_0000 + b1 * 0x1_0000 + b2 * 0x100 + b3)
}

/// Reads a big-endian `u64` at `pos`, which need not be aligned.
pub fn read_be_u64(buf: &[u8], pos: usize) -> (r: Result<u64, SliceReadError>)
    ensures
        r is Ok <==> pos + 8 <= buf@.len(),
        r matches Ok(v) ==> v == spec_be_u64(buf@, pos as int),
{
    let len: usize = buf.len();
    if len < 8 || pos > len - 8 {
        return Err(SliceReadError::UnexpectedEndOfInput);
    }
    let hi: u64 = match read_be_u32(buf, pos) {
        Ok(v) => v as u64,
        Err(e) => {
            return Err(e);
        },
    };
    let lo: u64 = match read_be_u32(buf, pos + 4) {
        Ok(v) => v as u64,
        Err(e) => {
            return Err(e);
        },
    };
    Ok(hi * 0x1_0000_0000 + lo)
}

/// Writes `v` as four big-endian bytes at `pos` and touches nothing else.
pub fn write_be_u32(buf: &mut [u8], pos: usize, v: u32)
    requires
        pos + 4 <= old(buf)@.len(),
    ensures
        final(buf)@.len() == old(buf)@.len(),
        spec_be_u32(final(buf)@, pos as int) == v,
        forall|i: int|
            0 <= i < old(buf)@.len() && !(pos <= i < pos + 4) ==> final(buf)@[i] == old(buf)@[i],
{
    let b3: u8 = (v % 256) as u8;
    let r1: u32 = v / 256;
    let b2: u8 = (r1 % 256) as u8;
    let r2: u32 = r1 / 256;
    let b1: u8 = (r2 % 256) as u8;
    let b0: u8 = (r2 / 256) as u8;
    buf[pos] = b0;
    buf[pos + 1] = b1;
    buf[pos + 2] = b2;
    buf[pos + 3] = b3;
}

/// Writes `v` as eight big-endian bytes at `pos` and touches nothing else.
pub fn write_be_u64(buf: &mut [u8], pos: usize, v: u64)
    requires
        pos + 8 <= old(buf)@.len(),
    ensures
        final(buf)@.len() == old(buf)@.len(),
        spec_be_u64(final(buf)@, pos as int) == v,
        forall|i: int|
            0 <= i < old(buf)@.len() && !(pos <= i < pos + 8) ==> final(buf)@[i] == old(buf)@[i],
{
    let len: usize = buf.len();
    assert(pos + 8 <= len);
    let hi: u32 = (v / 0x1_0000_0000) as u32;
    let lo: u32 = (v % 0x1_0000_0000) as u32;
    write_be_u32(buf, pos, hi);
    write_be_u32(buf, pos + 4, lo);
}

/// The bytes from `pos` up to the first zero byte, which must stand before
/// the end of `buf`.
pub fn read_bstring0<'a>(buf: &'a [u8], pos: usize) -> (r: Result<&'a [u8], SliceReadError>)
    ensures
        r is Ok <==> spec_nul_pos(buf@, pos as int, buf@.len() as int) < buf@.len(),
        r matches Ok(s) ==> s@ == buf@.subrange(
            pos as int,
            spec_nul_pos(buf@, pos as int, buf@.len() as int),
        ),
{
    nread_bstring0(buf, pos, buf.len())
}

/// Where a search for a zero byte from `pos` over at most `n` bytes ends.
pub open spec fn spec_search_end(len: int, pos: int, n: int) -> int {
    if pos + n < len {
        pos + n
    } else {
        len
    }
}

/// The bytes from `pos` up to the first zero byte, which must be among the
/// `n` bytes from `pos` on and before the end of `buf`.
pub fn nread_bstring0<'a>(buf: &'a [u8], pos: usize, n: usize) -> (r: Result<
    &'a [u8],
    SliceReadError,
>)
    ensures
        r is Ok <==> spec_nul_pos(
            buf@,
            pos as int,
            spec_search_end(buf@.len() as int, pos as int, n as int),
        ) < spec_search_end(buf@.len() as int, pos as int, n as int),
        r matches Ok(s) ==> s@ == buf@.subrange(
            pos as int,
            spec_nul_pos(
                buf@,
                pos as int,
                spec_search_end(buf@.len() as int, pos as int, n as int),
            ),
        ),
{
    let len: usize = buf.len();
    if pos >= len {
        return Err(SliceReadError::UnexpectedEndOfInput);
    }
    let end: usize = if n < len - pos {
        pos + n
    } else {
        len
    };
    let mut i: usize = pos;
    while i < end
        invariant
            pos <= i <= end <= len,
            len == buf@.len(),
            end == spec_search_end(len as int, pos as int, n as int),
            spec_nul_pos(buf@, i as int, end as int) == spec_nul_pos(buf@, pos as int, end as int),
        decreases end - i,
    {
        if buf[i] == 0 {
            return Ok(slice_subrange(buf, pos, i));
        }
        i = i + 1;
    }
    Err(SliceReadError::UnexpectedEndOfInput)
}

} // verus!
