//! Fixed-width unsigned integers as stored in capture data, in either byte order.

use vstd::prelude::*;

verus! {

/// Byte order of the multi-byte fields of one capture source.
#[derive(Clone, Copy, Debug, PartialEq, Eq, Structural)]
pub enum ByteOrder {
    Little,
    Big,
}

/// The value of four bytes taken as a little-endian number.
pub open spec fn le_word(b0: u8, b1: u8, b2: u8, b3: u8) -> int {
    b0 as int + 256 * (b1 as int) + 65536 * (b2 as int) + 16777216 * (b3 as int)
}

/// The value of the four bytes of `s` that start at `i`, in the given order.
pub open spec fn u32_at(order: ByteOrder, s: Seq<u8>, i: int) -> u32 {
    match order {
        ByteOrder::Little => le_word(s[i], s[i + 1], s[i + 2], s[i + 3]) as u32,
        ByteOrder::Big => le_word(s[i + 3], s[i + 2], s[i + 1], s[i]) as u32,
    }
}

/// The four big-endian bytes of `x`.
pub open spec fn be_bytes(x: u32) -> Seq<u8> {
    seq![
        (x / 16777216) as u8,
        (x / 65536 % 256) as u8,
        (x / 256 % 256) as u8,
        (x % 256) as u8,
    ]
}

/// Reads the four bytes of `s` that start at `i` as a number in the given order.
pub fn read_u32(order: ByteOrder, s: &[u8], i: usize) -> (r: u32)
    requires
        i + 4 <= s@.len(),
    ensures
        r == u32_at(order, s@, i as int),
{
    let (b0, b1, b2, b3) = (s[i] as u32, s[i + 1] as u32, s[i + 2] as u32, s[i + 3] as u32);
    match order {
        ByteOrder::Little => b0 + 256 * b1 + 65536 * b2 + 16777216 * b3,
        ByteOrder::Big => b3 + 256 * b2 + 65536 * b1 + 16777216 * b0,
    }
}

/// Appends the four big-endian bytes of `x` to `out`.
pub fn push_u32_be(out: &mut Vec<u8>, x: u32)
    ensures
        final(out)@ == old(out)@ + be_bytes(x),
{
    out.push((x / 16777216) as u8);
    out.push((x / 65536 % 256) as u8);
    out.push((x / 256 % 256) as u8);
    out.push((x % 256) as u8);
    assert(final(out)@ =~= old(out)@ + be_bytes(x));
}

} // verus!
