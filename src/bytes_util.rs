//! Little-endian field reads and byte-string comparisons.
use vstd::prelude::*;

verus! {

/// The little-endian `u16` at `off`.
pub open spec fn le_u16_at(d: Seq<u8>, off: int) -> u16 {
    ((d[off] as u16) | ((d[off + 1] as u16) << 8u16)) as u16
}

/// The little-endian `u32` at `off`.
pub open spec fn le_u32_at(d: Seq<u8>, off: int) -> u32 {
    (d[off] as u32) | ((d[off + 1] as u32) << 8u32) | ((d[off + 2] as u32) << 16u32) | ((d[off
        + 3] as u32) << 24u32)
}

/// Reads a little-endian `u16` at `off`.
pub fn read_u16_le(d: &[u8], off: usize) -> (r: u16)
    requires
        off + 2 <= d@.len(),
    ensures
        r == le_u16_at(d@, off as int),
{
    ((d[off] as u16) | ((d[off + 1] as u16) << 8u16)) as u16
}

/// Reads a little-endian `u32` at `off`.
pub fn read_u32_le(d: &[u8], off: usize) -> (r: u32)
    requires
        off + 4 <= d@.len(),
    ensures
        r == le_u32_at(d@, off as int),
{
    (d[off] as u32) | ((d[off + 1] as u32) << 8u32) | ((d[off + 2] as u32) << 16u32) | ((d[off
        + 3] as u32) << 24u32)
}

/// Reads a little-endian `i32` at `off` (two's complement).
pub fn read_i32_le(d: &[u8], off: usize) -> (r: i32)
    requires
        off + 4 <= d@.len(),
    ensures
        r == le_u32_at(d@, off as int) as i32,
{
    read_u32_le(d, off) as i32
}

/// Reads a little-endian `i16` at `off` (two's complement).
pub fn read_i16_le(d: &[u8], off: usize) -> (r: i16)
    requires
        off + 2 <= d@.len(),
    ensures
        r == le_u16_at(d@, off as int) as i16,
{
    read_u16_le(d, off) as i16
}

/// Byte-wise equality of two byte strings.
pub fn bytes_eq(a: &[u8], b: &[u8]) -> (r: bool)
    ensures
        r <==> a@ == b@,
{
    if a.len() != b.len() {
        return false;
    }
    let mut i: usize = 0;
    while i < a.len()
        invariant
            i <= a@.len() == b@.len(),
            forall|j: int| 0 <= j < i ==> a@[j] == b@[j],
        decreases a@.len() - i,
    {
        if a[i] != b[i] {
            return false;
        }
        i = i + 1;
    }
    assert(a@ =~= b@);
    true
}

/// Whether `s` begins with `prefix`.
pub fn starts_with(s: &[u8], prefix: &[u8]) -> (r: bool)
    ensures
        r <==> prefix@.len() <= s@.len() && s@.subrange(0, prefix@.len() as int) == prefix@,
{
    if prefix.len() > s.len() {
        return false;
    }
    let mut i: usize = 0;
    while i < prefix.len()
        invariant
            i <= prefix@.len() <= s@.len(),
            forall|j: int| 0 <= j < i ==> s@[j] == prefix@[j],
        decreases prefix@.len() - i,
    {
        if s[i] != prefix[i] {
            assert(s@.subrange(0, prefix@.len() as int)[i as int] != prefix@[i as int]);
            return false;
        }
        i = i + 1;
    }
    assert(s@.subrange(0, prefix@.len() as int) =~= prefix@);
    true
}

/// A copy of `d[from..to]`.
pub fn copy_range(d: &[u8], from: usize, to: usize) -> (r: Vec<u8>)
    requires
        from <= to <= d@.len(),
    ensures
        r@ == d@.subrange(from as int, to as int),
{
    let mut out: Vec<u8> = Vec::new();
    let mut i: usize = from;
    while i < to
        invariant
            from <= i <= to <= d@.len(),
            out@ == d@.subrange(from as int, i as int),
        decreases to - i,
    {
        out.push(d[i]);
        i = i + 1;
        assert(out@ =~= d@.subrange(from as int, i as int));
    }
    out
}

} // verus!
