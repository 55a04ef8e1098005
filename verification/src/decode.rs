//! Decoding of 16-bit instruction words: the four nibbles, the low byte and
//! the low 12 bits.  The spec functions are stated arithmetically, so they
//! evaluate on concrete words; the executable helpers use shifts and masks
//! and are proved to match them.

use vstd::prelude::*;

verus! {

/// Top nibble: selects the instruction family.
pub open spec fn nib1(op: u16) -> u8 {
    (op / 0x1000) as u8
}

/// Second nibble: the X register operand.
pub open spec fn nib_x(op: u16) -> u8 {
    ((op / 0x100) % 0x10) as u8
}

/// Third nibble: the Y register operand.
pub open spec fn nib_y(op: u16) -> u8 {
    ((op / 0x10) % 0x10) as u8
}

/// Bottom nibble: sub-selector, or a sprite height.
pub open spec fn low4(op: u16) -> u8 {
    (op % 0x10) as u8
}

/// Low byte: an immediate operand, or a sub-selector.
pub open spec fn low8(op: u16) -> u8 {
    (op % 0x100) as u8
}

/// Low 12 bits: an address operand.
pub open spec fn low12(op: u16) -> u16 {
    op % 0x1000
}

/// Every nibble is below 16, and the address operand below 4096.
pub proof fn lemma_decode_bounds(op: u16)
    ensures
        nib1(op) < 16,
        nib_x(op) < 16,
        nib_y(op) < 16,
        low4(op) < 16,
        low12(op) < 4096,
{
    assert(op / 0x1000 < 16);
}

pub fn get_1(op: u16) -> (r: u8)
    ensures
        r == nib1(op),
        r < 16,
{
    proof {
        lemma_decode_bounds(op);
        assert((((op & 0xF000) >> 12) as u8) == (op / 0x1000) as u8) by (bit_vector);
    }
    ((op & 0xF000) >> 12) as u8
}

pub fn get_2(op: u16) -> (r: u8)
    ensures
        r == nib_x(op),
        r < 16,
{
    proof {
        lemma_decode_bounds(op);
        assert((((op & 0x0F00) >> 8) as u8) == ((op / 0x100) % 0x10) as u8) by (bit_vector);
    }
    ((op & 0x0F00) >> 8) as u8
}

pub fn get_3(op: u16) -> (r: u8)
    ensures
        r == nib_y(op),
        r < 16,
{
    proof {
        lemma_decode_bounds(op);
        assert((((op & 0x00F0) >> 4) as u8) == ((op / 0x10) % 0x10) as u8) by (bit_vector);
    }
    ((op & 0x00F0) >> 4) as u8
}

pub fn get_4(op: u16) -> (r: u8)
    ensures
        r == low4(op),
        r < 16,
{
    proof {
        lemma_decode_bounds(op);
        assert(((op & 0x000F) as u8) == (op % 0x10) as u8) by (bit_vector);
    }
    (op & 0x000F) as u8
}

pub fn get_nn(op: u16) -> (r: u8)
    ensures
        r == low8(op),
{
    proof {
        assert(((op & 0x00FF) as u8) == (op % 0x100) as u8) by (bit_vector);
    }
    (op & 0x00FF) as u8
}

pub fn get_nnn(op: u16) -> (r: u16)
    ensures
        r == low12(op),
        r < 4096,
{
    proof {
        lemma_decode_bounds(op);
        assert((op & 0x0FFF) == op % 0x1000) by (bit_vector);
    }
    op & 0x0FFF
}

} // verus!
