//! A raw 16-bit CHIP-8 instruction word, with accessors for the bit fields
//! that the opcode families are built from: the low 12-bit address, the low
//! nibble, the two register selectors, the low byte, and the four nibbles.

use vstd::prelude::*;

verus! {

/// A 16-bit instruction word, as fetched from memory (big-endian).
#[derive(Debug, Clone, Copy)]
pub struct Instruction {
    pub instruction: u16,
}

impl Instruction {
    pub fn new(instruction: u16) -> (r: Instruction)
        ensures
            r.instruction == instruction,
    {
        Instruction { instruction }
    }

    /// The low 12 bits: the address field `nnn` of jump/call/index opcodes.
    pub fn addr(&self) -> (r: u16)
        ensures
            r == self.instruction % 0x1000,
    {
        let w = self.instruction;
        proof {
            assert(w & 0x0FFF == w % 0x1000) by (bit_vector);
        }
        w & 0x0FFF
    }

    /// The low 4 bits: the nibble field `n` of the draw opcode.
    pub fn nibble(&self) -> (r: u16)
        ensures
            r == self.instruction % 0x10,
    {
        let w = self.instruction;
        proof {
            assert(w & 0x000F == w % 0x10) by (bit_vector);
        }
        w & 0x000F
    }

    /// Bits 8..12: the first register selector `x`.
    pub fn x(&self) -> (r: u16)
        ensures
            r == (self.instruction / 0x100) % 0x10,
    {
        let w = self.instruction;
        proof {
            assert((w & 0x0F00) >> 8 == (w / 0x100) % 0x10) by (bit_vector);
        }
        (w & 0x0F00) >> 8
    }

    /// Bits 4..8: the second register selector `y`.
    pub fn y(&self) -> (r: u16)
        ensures
            r == (self.instruction / 0x10) % 0x10,
    {
        let w = self.instruction;
        proof {
            assert((w & 0x00F0) >> 4 == (w / 0x10) % 0x10) by (bit_vector);
        }
        (w & 0x00F0) >> 4
    }

    /// The low 8 bits: the immediate byte `kk`.
    pub fn byte(&self) -> (r: u16)
        ensures
            r == self.instruction % 0x100,
    {
        let w = self.instruction;
        proof {
            assert(w & 0x00FF == w % 0x100) by (bit_vector);
        }
        w & 0x00FF
    }

    /// All four nibbles, most significant first.
    pub fn tuple(&self) -> (r: (u16, u16, u16, u16))
        ensures
            r.0 == self.instruction / 0x1000,
            r.1 == (self.instruction / 0x100) % 0x10,
            r.2 == (self.instruction / 0x10) % 0x10,
            r.3 == self.instruction % 0x10,
    {
        let w = self.instruction;
        proof {
            assert((w & 0xF000) >> 12 == w / 0x1000) by (bit_vector);
            assert((w & 0x0F00) >> 8 == (w / 0x100) % 0x10) by (bit_vector);
            assert((w & 0x00F0) >> 4 == (w / 0x10) % 0x10) by (bit_vector);
            assert(w & 0x000F == w % 0x10) by (bit_vector);
        }
        ((w & 0xF000) >> 12, (w & 0x0F00) >> 8, (w & 0x00F0) >> 4, (w & 0x000F))
    }
}

impl From<u16> for Instruction {
    fn from(instruction: u16) -> (r: Instruction) {
        Instruction::new(instruction)
    }
}

impl vstd::std_specs::convert::FromSpecImpl<u16> for Instruction {
    open spec fn obeys_from_spec() -> bool {
        true
    }

    open spec fn from_spec(instruction: u16) -> Instruction {
        Instruction { instruction }
    }
}

} // verus!
