//! Little- and big-endian word access over byte sequences.
//!
//! All multi-byte fields of an executable image are read and written through
//! the functions here, so the rest of the crate can speak about raw bytes with
//! one fixed meaning per field width and byte order.

use vstd::prelude::*;

verus! {

/// The 16-bit word stored at `off` in `b`, least-significant byte first when
/// `le` is true.
pub open spec fn u16_at(b: Seq<u8>, off: int, le: bool) -> int {
    if le {
        b[off] + 0x100 * b[off + 1]
    } else {
        b[off + 1] + 0x100 * b[off]
    }
}

/// The 32-bit word stored at `off` in `b`.
pub open spec fn u32_at(b: Seq<u8>, off: int, le: bool) -> int {
    if le {
        b[off] + 0x100 * b[off + 1] + 0x1_0000 * b[off + 2] + 0x100_0000 * b[off + 3]
    } else {
        b[off + 3] + 0x100 * b[off + 2] + 0x1_0000 * b[off + 1] + 0x100_0000 * b[off]
    }
}

/// The 64-bit word stored at `off` in `b`.
pub open spec fn u64_at(b: Seq<u8>, off: int, le: bool) -> int {
    if le {
        u32_at(b, off, le) + 0x1_0000_0000 * u32_at(b, off + 4, le)
    } else {
        u32_at(b, off + 4, le) + 0x1_0000_0000 * u32_at(b, off, le)
    }
}

/// Reads the 16-bit word at `off`.
pub fn read_u16(b: &Vec<u8>, off: usize, le: bool) -> (r: u16)
    requires
        off + 2 <= b.len(),
    ensures
        r == u16_at(b@, off as int, le),
{
    if le {
        b[off] as u16 + 0x100u16 * (b[off + 1] as u16)
    } else {
        b[off + 1] as u16 + 0x100u16 * (b[off] as u16)
    }
}

/// Reads the 32-bit word at `off`.
pub fn read_u32(b: &Vec<u8>, off: usize, le: bool) -> (r: u32)
    requires
        off + 4 <= b.len(),
    ensures
        r == u32_at(b@, off as int, le),
{
    let (b0, b1, b2, b3) = if le {
        (b[off], b[off + 1], b[off + 2], b[off + 3])
    } else {
        (b[off + 3], b[off + 2], b[off + 1], b[off])
    };
    b0 as u32 + 0x100u32 * (b1 as u32) + 0x1_0000u32 * (b2 as u32) + 0x100_0000u32 * (b3 as u32)
}

/// Reads the 64-bit word at `off`.
pub fn read_u64(b: &Vec<u8>, off: usize, le: bool) -> (r: u64)
    requires
        off + 8 <= b.len(),
    ensures
        r == u64_at(b@, off as int, le),
{
    let (lo, hi) = if le {
        (read_u32(b, off, le), read_u32(b, off + 4, le))
    } else {
        (read_u32(b, off + 4, le), read_u32(b, off, le))
    };
    lo as u64 + 0x1_0000_0000u64 * (hi as u64)
}

/// Overwrites the 4 bytes at `off` so that they hold `val`.
pub fn write_u32(b: &mut Vec<u8>, off: usize, val: u32, le: bool)
    requires
        off + 4 <= old(b).len(),
    ensures
        final(b)@.len() == old(b)@.len(),
        u32_at(final(b)@, off as int, le) == val,
        forall|i: int| 0 <= i < final(b)@.len() && !(off <= i < off + 4) ==> final(b)@[i] == old(b)@[i],
{
    let b0 = (val % 0x100) as u8;
    let b1 = (val / 0x100 % 0x100) as u8;
    let b2 = (val / 0x1_0000 % 0x100) as u8;
    let b3 = (val / 0x100_0000) as u8;
    if le {
        b.set(off, b0);
        b.set(off + 1, b1);
        b.set(off + 2, b2);
        b.set(off + 3, b3);
    } else {
        b.set(off, b3);
        b.set(off + 1, b2);
        b.set(off + 2, b1);
        b.set(off + 3, b0);
    }
}

/// Overwrites the 8 bytes at `off` so that they hold `val`.
pub fn write_u64(b: &mut Vec<u8>, off: usize, val: u64, le: bool)
    requires
        off + 8 <= old(b).len(),
    ensures
        final(b)@.len() == old(b)@.len(),
        u64_at(final(b)@, off as int, le) == val,
        forall|i: int| 0 <= i < final(b)@.len() && !(off <= i < off + 8) ==> final(b)@[i] == old(b)@[i],
{
    let lo = (val % 0x1_0000_0000) as u32;
    let hi = (val / 0x1_0000_0000) as u32;
    if le {
        write_u32(b, off, lo, le);
        write_u32(b, off + 4, hi, le);
    } else {
        write_u32(b, off + 4, lo, le);
        write_u32(b, off, hi, le);
    }
}

/// Appends `src[off .. off + len]` to `dst`.
pub fn append_range(dst: &mut Vec<u8>, src: &Vec<u8>, off: usize, len: usize)
    requires
        off + len <= src.len(),
        old(dst).len() + len <= usize::MAX,
    ensures
        final(dst)@ == old(dst)@ + src@.subrange(off as int, off + len),
{
    let mut i: usize = 0;
    while i < len
        invariant
            i <= len,
            off + len <= src.len(),
            old(dst).len() + len <= usize::MAX,
            dst@ == old(dst)@ + src@.subrange(off as int, off + i),
        decreases len - i,
    {
        dst.push(src[off + i]);
        proof {
            assert(dst@ =~= old(dst)@ + src@.subrange(off as int, off + i + 1));
        }
        i = i + 1;
    }
}

} // verus!
