//! Splitting a fetched 16-bit opcode into its fields.

use vstd::prelude::*;
use crate::chip8::Chip8;

verus! {

/// Highest nibble of an opcode: the instruction family.
pub open spec fn op_a(op: u16) -> u8 {
    (op / 0x1000) as u8
}

/// Second nibble: the first register operand index `x`.
pub open spec fn op_x(op: u16) -> u8 {
    ((op / 0x100) % 0x10) as u8
}

/// Third nibble: the second register operand index `y`.
pub open spec fn op_y(op: u16) -> u8 {
    ((op / 0x10) % 0x10) as u8
}

/// Lowest nibble: the count operand `n`.
pub open spec fn op_n(op: u16) -> u8 {
    (op % 0x10) as u8
}

/// Low byte: the immediate operand `nn`.
pub open spec fn op_nn(op: u16) -> u8 {
    (op % 0x100) as u8
}

/// Low 12 bits: the address operand `nnn`.
pub open spec fn op_nnn(op: u16) -> u16 {
    op % 0x1000
}

impl Chip8 {
    /// Split the two bytes of an opcode into four nibbles.
    pub fn decode(opcode: u16) -> (r: (u8, u8, u8, u8))
        ensures
            r.0 == op_a(opcode),
            r.1 == op_x(opcode),
            r.2 == op_y(opcode),
            r.3 == op_n(opcode),
    {
        proof {
            assert(((opcode & 0xF000) >> 12) == (opcode / 0x1000) % 0x10) by (bit_vector);
            assert(((opcode & 0x0F00) >> 8) == (opcode / 0x100) % 0x10) by (bit_vector);
            assert(((opcode & 0x00F0) >> 4) == (opcode / 0x10) % 0x10) by (bit_vector);
            assert((opcode & 0x000F) == opcode % 0x10) by (bit_vector);
            assert(opcode / 0x1000 < 0x10);
        }
        (
            ((opcode & 0xF000) >> 12) as u8,
            ((opcode & 0x0F00) >> 8) as u8,
            ((opcode & 0x00F0) >> 4) as u8,
            (opcode & 0x000F) as u8,
        )
    }
}

} // verus!
