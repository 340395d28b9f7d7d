//! ISO 9660 stores many integers twice, first little-endian and then
//! big-endian.  Following common practice (and the Linux kernel) the
//! little-endian copy is authoritative; a disagreement between the two is
//! surfaced as a mismatch flag that callers may log and is otherwise ignored.

use vstd::prelude::*;

verus! {

/// The little-endian 16-bit value of the two bytes at `i`.
pub open spec fn le16_at(d: Seq<u8>, i: int) -> u16
    recommends
        0 <= i,
        i + 2 <= d.len(),
{
    (d[i] + d[i + 1] * 0x100) as u16
}

/// The big-endian 16-bit value of the two bytes at `i`.
pub open spec fn be16_at(d: Seq<u8>, i: int) -> u16
    recommends
        0 <= i,
        i + 2 <= d.len(),
{
    (d[i + 1] + d[i] * 0x100) as u16
}

/// The little-endian 32-bit value of the four bytes at `i`.
pub open spec fn le32_at(d: Seq<u8>, i: int) -> u32
    recommends
        0 <= i,
        i + 4 <= d.len(),
{
    (d[i] + d[i + 1] * 0x100 + d[i + 2] * 0x10000 + d[i + 3] * 0x1000000) as u32
}

/// The big-endian 32-bit value of the four bytes at `i`.
pub open spec fn be32_at(d: Seq<u8>, i: int) -> u32
    recommends
        0 <= i,
        i + 4 <= d.len(),
{
    (d[i + 3] + d[i + 2] * 0x100 + d[i + 1] * 0x10000 + d[i] * 0x1000000) as u32
}

/// Reads a 16-bit both-endian field (4 bytes) at `off`.
///
/// Returns the little-endian value together with a mismatch flag that is set
/// exactly when the two on-disc representations disagree.
pub fn both_endian16(d: &[u8], off: usize) -> (r: (u16, bool))
    requires
        off + 4 <= d@.len(),
    ensures
        r.0 == le16_at(d@, off as int),
        r.1 == (le16_at(d@, off as int) != be16_at(d@, off as int + 2)),
{
    let le: u16 = d[off] as u16 + d[off + 1] as u16 * 0x100;
    let be: u16 = d[off + 3] as u16 + d[off + 2] as u16 * 0x100;
    (le, le != be)
}

/// Reads a 32-bit both-endian field (8 bytes) at `off`.
///
/// Returns the little-endian value together with a mismatch flag that is set
/// exactly when the two on-disc representations disagree.
pub fn both_endian32(d: &[u8], off: usize) -> (r: (u32, bool))
    requires
        off + 8 <= d@.len(),
    ensures
        r.0 == le32_at(d@, off as int),
        r.1 == (le32_at(d@, off as int) != be32_at(d@, off as int + 4)),
{
    let le: u32 = d[off] as u32 + d[off + 1] as u32 * 0x100 + d[off + 2] as u32 * 0x10000 + d[off
        + 3] as u32 * 0x1000000;
    let be: u32 = d[off + 7] as u32 + d[off + 6] as u32 * 0x100 + d[off + 5] as u32 * 0x10000 + d[off
        + 4] as u32 * 0x1000000;
    (le, le != be)
}

/// Reads a plain little-endian 32-bit field (4 bytes) at `off`.  Used for
/// the few fields that are not stored in both byte orders.
pub fn read_le32(d: &[u8], off: usize) -> (r: u32)
    requires
        off + 4 <= d@.len(),
    ensures
        r == le32_at(d@, off as int),
{
    let len = d.len();
    assert(off + 4 <= len);
    d[off] as u32 + d[off + 1] as u32 * 0x100 + d[off + 2] as u32 * 0x10000 + d[off + 3] as u32
        * 0x1000000
}

} // verus!
