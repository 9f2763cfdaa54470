//! The memory primitive: filling a range of bytes with one value.

use vstd::prelude::*;

verus! {

/// The low byte of an integer: the byte that C keeps when it narrows an `int`
/// to an `unsigned char`.
pub open spec fn low_byte(value: i32) -> u8 {
    (value as int % 256) as u8
}

/// Computes the low byte of an integer.
pub fn low_byte_of(value: i32) -> (byte: u8)
    ensures
        byte == low_byte(value),
{
    if value >= 0 {
        (value % 256) as u8
    } else {
        let below: i32 = -(value + 1);
        (255 - below % 256) as u8
    }
}

/// `bytes` with its first `count` bytes replaced by `byte`.
pub open spec fn filled(bytes: Seq<u8>, byte: u8, count: nat) -> Seq<u8> {
    Seq::new(
        bytes.len(),
        |i: int|
            if i < count {
                byte
            } else {
                bytes[i]
            },
    )
}

/// Writes the low byte of `c` into each of the first `n` bytes of `dest`, leaves
/// the rest as it is, and hands `dest` back. The range must lie inside `dest`.
pub fn memset(dest: &mut [u8], c: i32, n: usize) -> (same: &mut [u8])
    requires
        n <= old(dest)@.len(),
    ensures
        same@ == filled(old(dest)@, low_byte(c), n as nat),
        final(dest)@ == final(same)@,
{
    let byte = low_byte_of(c);
    let mut i: usize = 0;
    while i < n
        invariant
            i <= n <= dest@.len(),
            dest@.len() == old(dest)@.len(),
            dest@ == filled(old(dest)@, byte, i as nat),
        decreases n - i,
    {
        dest[i] = byte;
        i += 1;
        assert(dest@ =~= filled(old(dest)@, byte, i as nat));
    }
    dest
}

} // verus!
