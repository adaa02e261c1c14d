//! Byte-level helpers of the wire format: the magic prefix and big-endian
//! 32-bit words.

use vstd::prelude::*;

verus! {

/// First byte of the frame magic.
pub const MAGIC_0: u8 = 125;

/// Second byte of the frame magic.
pub const MAGIC_1: u8 = 8;

/// Third byte of the frame magic.
pub const MAGIC_2: u8 = 141;

/// The three magic bytes that open every frame.
pub open spec fn magic_seq() -> Seq<u8> {
    seq![MAGIC_0, MAGIC_1, MAGIC_2]
}

/// The magic byte expected at match index `i`.
pub open spec fn magic_byte(i: int) -> u8 {
    if i == 0 {
        MAGIC_0
    } else if i == 1 {
        MAGIC_1
    } else {
        MAGIC_2
    }
}

/// The four bytes of `x` in big-endian (network) order.
pub open spec fn spec_u32_to_be_bytes(x: u32) -> Seq<u8> {
    seq![
        ((x >> 24) & 0xff) as u8,
        ((x >> 16) & 0xff) as u8,
        ((x >> 8) & 0xff) as u8,
        (x & 0xff) as u8,
    ]
}

/// The 32-bit word read from four bytes in big-endian (network) order.
pub open spec fn spec_u32_from_be_bytes(s: Seq<u8>) -> u32
    recommends
        s.len() == 4,
{
    (s[0] as u32) << 24 | (s[1] as u32) << 16 | (s[2] as u32) << 8 | (s[3] as u32)
}

/// Writing a word big-endian and reading it back gives the word again.
pub proof fn lemma_u32_be_bytes_roundtrip(x: u32)
    ensures
        spec_u32_to_be_bytes(x).len() == 4,
        spec_u32_from_be_bytes(spec_u32_to_be_bytes(x)) == x,
{
    assert({
        &&& (x >> 24) & 0xff < 256
        &&& (x >> 16) & 0xff < 256
        &&& (x >> 8) & 0xff < 256
        &&& x & 0xff < 256
    }) by (bit_vector);
    assert(x == ((x >> 24) & 0xff) << 24 | ((x >> 16) & 0xff) << 16 | ((x >> 8) & 0xff) << 8 | (
    x & 0xff)) by (bit_vector);
}

/// Append the four big-endian bytes of `x` to `out`.
pub fn push_u32_be(out: &mut Vec<u8>, x: u32)
    ensures
        final(out)@ == old(out)@ + spec_u32_to_be_bytes(x),
{
    out.push(((x >> 24) & 0xff) as u8);
    out.push(((x >> 16) & 0xff) as u8);
    out.push(((x >> 8) & 0xff) as u8);
    out.push((x & 0xff) as u8);
    proof {
        assert(out@ =~= old(out)@ + spec_u32_to_be_bytes(x));
    }
}

/// Read a 32-bit word from four bytes in big-endian order.
pub fn u32_from_be(b0: u8, b1: u8, b2: u8, b3: u8) -> (r: u32)
    ensures
        r == spec_u32_from_be_bytes(seq![b0, b1, b2, b3]),
{
    (b0 as u32) << 24u32 | (b1 as u32) << 16u32 | (b2 as u32) << 8u32 | (b3 as u32)
}

} // verus!
