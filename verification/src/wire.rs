//! The 7-bit wire quantities of MIDI system-exclusive data: every data byte
//! carries 7 bits, and 14-bit numbers travel as an LSB byte and an MSB byte.

use vstd::prelude::*;

verus! {

/// The (LSB, MSB) pair that carries the low 14 bits of `v`.
pub open spec fn split14_spec(v: u16) -> (u8, u8) {
    ((v % 128) as u8, ((v / 128) % 128) as u8)
}

/// The 14-bit number carried by an (LSB, MSB) pair; the top bit of each byte
/// is ignored.
pub open spec fn u14_spec(lsb: u8, msb: u8) -> u16 {
    ((msb % 128) * 128 + lsb % 128) as u16
}

/// The low seven bits of `v`.
fn low7(v: u16) -> (r: u8)
    ensures
        r == v % 128,
{
    let m: u16 = v & 0x7F;
    assert(m == v % 128) by (bit_vector)
        requires
            m == v & 0x7F,
    ;
    m as u8
}

/// Split the low 14 bits of `v` into two 7-bit bytes, LSB first.
pub fn split14(v: u16) -> (r: (u8, u8))
    ensures
        r == split14_spec(v),
        r.0 < 0x80,
        r.1 < 0x80,
{
    let hi: u16 = v >> 7;
    assert(hi == v / 128) by (bit_vector)
        requires
            hi == v >> 7,
    ;
    (low7(v), low7(hi))
}

/// Join two 7-bit bytes, LSB first, into a 14-bit number.
pub fn u14(lsb: u8, msb: u8) -> (r: u16)
    ensures
        r == u14_spec(lsb, msb),
        r < 0x4000,
{
    let m: u16 = (msb & 0x7F) as u16;
    let l: u16 = (lsb & 0x7F) as u16;
    let r: u16 = (m << 7) | l;
    assert(r == (msb % 128) * 128 + lsb % 128 && r < 0x4000) by (bit_vector)
        requires
            m == (msb & 0x7F) as u16,
            l == (lsb & 0x7F) as u16,
            r == (m << 7) | l,
    ;
    r
}

/// Splitting a 14-bit number and joining the halves gives it back.
pub proof fn lemma_u14_of_split14(v: u16)
    requires
        v < 0x4000,
    ensures
        u14_spec(split14_spec(v).0, split14_spec(v).1) == v,
        split14_spec(v).0 < 0x80,
        split14_spec(v).1 < 0x80,
{
}

/// Joining two 7-bit bytes and splitting the result gives them back.
pub proof fn lemma_split14_of_u14(lsb: u8, msb: u8)
    requires
        lsb < 0x80,
        msb < 0x80,
    ensures
        split14_spec(u14_spec(lsb, msb)) == (lsb, msb),
{
}

} // verus!

verus! {

/// What the wire helpers mean: `split14` gives two 7-bit bytes that carry
/// `v` modulo 2^14 as LSB + 128·MSB, and `u14` reads LSB + 128·MSB from the
/// low seven bits of each byte.
pub proof fn lemma_wire_meaning(v: u16, lsb: u8, msb: u8)
    ensures
        split14_spec(v).0 < 128,
        split14_spec(v).1 < 128,
        split14_spec(v).0 + 128 * split14_spec(v).1 == v % 0x4000,
        u14_spec(lsb, msb) == lsb % 128 + 128 * (msb % 128),
{
}

} // verus!
