use vstd::prelude::*;

verus! {

/// Reversal of the eight bits of a byte: bit `i` of the result is bit
/// `7 - i` of the input.
pub open spec fn rev8(b: u8) -> u8 {
    ((b & 0x01) << 7) | ((b & 0x02) << 5) | ((b & 0x04) << 3) | ((b & 0x08) << 1)
        | ((b & 0x10) >> 1) | ((b & 0x20) >> 3) | ((b & 0x40) >> 5) | ((b & 0x80) >> 7)
}

/// The 16-bit working value decoded from two instruction bytes.  Each byte
/// has its bits reversed in place; the byte at the lower address stays the
/// low half of the word.  Every instruction field is a slice of this value.
pub open spec fn word_rev(b1: u8, b2: u8) -> u16 {
    (rev8(b1) as u16) | ((rev8(b2) as u16) << 8)
}

/// Opcode field: bits 0 through 5 of the working value.
pub open spec fn opcode_of(w: u16) -> u8 {
    (w & 0b11_1111) as u8
}

/// Source register field: bits 6 through 10 of the working value.
pub open spec fn rs_of(w: u16) -> u8 {
    ((w & 0b111_1100_0000) >> 6) as u8
}

/// Target register field: bits 11 through 15 of the working value.
pub open spec fn rt_of(w: u16) -> u8 {
    ((w & 0b1111_1000_0000_0000) >> 11) as u8
}

/// Destination register field of a register-format second word: bits 0
/// through 4.
pub open spec fn rd_of(w: u16) -> u8 {
    (w & 0b1_1111) as u8
}

/// Shift-amount field of a register-format second word: bits 5 through 9.
pub open spec fn shamt_of(w: u16) -> u8 {
    ((w & 0b11_1110_0000) >> 5) as u8
}

/// Funct field of a register-format second word: bits 10 through 15.
pub open spec fn funct_of(w: u16) -> u8 {
    ((w & 0b1111_1100_0000_0000) >> 10) as u8
}

/// Reverses the bit order of one byte.
pub fn reverse_byte(b: u8) -> (r: u8)
    ensures
        r == rev8(b),
{
    ((b & 0x01) << 7) | ((b & 0x02) << 5) | ((b & 0x04) << 3) | ((b & 0x08) << 1)
        | ((b & 0x10) >> 1) | ((b & 0x20) >> 3) | ((b & 0x40) >> 5) | ((b & 0x80) >> 7)
}

/// Decodes two instruction bytes into the 16-bit working value.
pub fn decode_pair(b1: u8, b2: u8) -> (r: u16)
    ensures
        r == word_rev(b1, b2),
{
    let lo = reverse_byte(b1);
    let hi = reverse_byte(b2);
    (lo as u16) | ((hi as u16) << 8)
}

/// Reversing the bits of a byte twice gives the byte back.
pub proof fn lemma_rev8_involution(b: u8)
    ensures
        rev8(rev8(b)) == b,
{
    assert(rev8(rev8(b)) == b) by (bit_vector);
}

/// The decode permutation is a fixed permutation that is its own inverse:
/// reversing each byte of the working value recovers the original byte
/// pair exactly.
pub proof fn lemma_decode_inverse(b1: u8, b2: u8)
    ensures
        rev8((word_rev(b1, b2) & 0xFF) as u8) == b1,
        rev8(((word_rev(b1, b2) >> 8) & 0xFF) as u8) == b2,
{
    assert(rev8((word_rev(b1, b2) & 0xFF) as u8) == b1) by (bit_vector);
    assert(rev8(((word_rev(b1, b2) >> 8) & 0xFF) as u8) == b2) by (bit_vector);
}


} // verus!
