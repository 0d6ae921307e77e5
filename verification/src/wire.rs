//! Big-endian serialization of the fixed-width integers the output layout uses.

use vstd::prelude::*;

verus! {

/// The two bytes of `v` in big-endian order.
pub open spec fn be16_of(v: u16) -> Seq<u8> {
    seq![(v >> 8) as u8, v as u8]
}

/// The four bytes of `v` in big-endian order.
pub open spec fn be32_of(v: u32) -> Seq<u8> {
    seq![(v >> 24) as u8, (v >> 16) as u8, (v >> 8) as u8, v as u8]
}

/// A signed 16-bit value is serialized as its two's-complement bit pattern.
pub open spec fn be16_of_i16(v: i16) -> Seq<u8> {
    be16_of(v as u16)
}

/// A signed 32-bit value is serialized as its two's-complement bit pattern.
pub open spec fn be32_of_i32(v: i32) -> Seq<u8> {
    be32_of(v as u32)
}

/// Append the big-endian bytes of `v` to `out`.
pub fn push_be16(out: &mut Vec<u8>, v: u16)
    ensures
        final(out)@ == old(out)@ + be16_of(v),
{
    out.push(#[verifier::truncate] ((v >> 8) as u8));
    out.push(#[verifier::truncate] (v as u8));
    proof {
        assert(out@ =~= old(out)@ + be16_of(v));
    }
}

/// Append the big-endian bytes of `v` to `out`.
pub fn push_be32(out: &mut Vec<u8>, v: u32)
    ensures
        final(out)@ == old(out)@ + be32_of(v),
{
    out.push(#[verifier::truncate] ((v >> 24) as u8));
    out.push(#[verifier::truncate] ((v >> 16) as u8));
    out.push(#[verifier::truncate] ((v >> 8) as u8));
    out.push(#[verifier::truncate] (v as u8));
    proof {
        assert(out@ =~= old(out)@ + be32_of(v));
    }
}

/// Append the big-endian two's-complement bytes of `v` to `out`.
pub fn push_be16_i16(out: &mut Vec<u8>, v: i16)
    ensures
        final(out)@ == old(out)@ + be16_of_i16(v),
{
    push_be16(out, #[verifier::truncate] (v as u16));
}

/// Append the big-endian two's-complement bytes of `v` to `out`.
pub fn push_be32_i32(out: &mut Vec<u8>, v: i32)
    ensures
        final(out)@ == old(out)@ + be32_of_i32(v),
{
    push_be32(out, #[verifier::truncate] (v as u32));
}

} // verus!
