//! The CHIP-8 opcode set as a tagged union, and the total decoder from a
//! 16-bit instruction word to exactly one variant.
//!
//! Every field is already masked to its bit width by decoding: register
//! selectors to 4 bits, immediate bytes to 8 bits, addresses to 12 bits.
//! Unrecognised patterns decode to `NOOP`, so decoding never fails.

use vstd::prelude::*;

use crate::instruction::Instruction;

verus! {

/// A decoded CHIP-8 operation. Field names follow the conventional
/// mnemonics: `vx`/`vy` select registers, `addr` is a 12-bit address,
/// `byte` an 8-bit immediate, `nibble` a 4-bit immediate.
#[derive(Debug, Clone, Copy, PartialEq, Eq, Structural)]
#[allow(non_camel_case_types)]
pub enum OpCode {
    NOOP,
    CLS,
    RET,
    JP { addr: u16 },
    CALL { addr: u16 },
    SE { vx: u16, other: u16, by_value: bool },
    SNE { vx: u16, other: u16, by_value: bool },
    LD { vx: u16, other: u16, by_value: bool },
    ADD { vx: u16, byte: u16 },
    OR { vx: u16, vy: u16 },
    AND { vx: u16, vy: u16 },
    XOR { vx: u16, vy: u16 },
    ADDREG { vx: u16, vy: u16 },
    SUB { vx: u16, vy: u16 },
    SHR { vx: u16, vy: u16 },
    SUBN { vx: u16, vy: u16 },
    SHL { vx: u16, vy: u16 },
    LDI { addr: u16 },
    JPV0 { addr: u16 },
    RND { vx: u16, byte: u16 },
    DRW { vx: u16, vy: u16, nibble: u16 },
    SKP { vx: u16 },
    SKNP { vx: u16 },
    LDVXDT { vx: u16 },
    LDK { vx: u16 },
    LDDTVX { vx: u16 },
    LDSTVX { vx: u16 },
    ADDI { vx: u16 },
    LDF { vx: u16 },
    LDB { vx: u16 },
    LDMEMI { vx: u16 },
    LDVXMEMI { vx: u16 },
}

impl OpCode {
    /// Every field lies within the bit width that decoding extracts it from.
    /// All decoded opcodes satisfy this, and the execution engine relies on it.
    pub open spec fn wf(self) -> bool {
        match self {
            OpCode::NOOP => true,
            OpCode::CLS => true,
            OpCode::RET => true,
            OpCode::JP { addr } => addr < 0x1000,
            OpCode::CALL { addr } => addr < 0x1000,
            OpCode::SE { vx, other, by_value } => vx < 16 && if by_value {
                other < 0x100
            } else {
                other < 16
            },
            OpCode::SNE { vx, other, by_value } => vx < 16 && if by_value {
                other < 0x100
            } else {
                other < 16
            },
            OpCode::LD { vx, other, by_value } => vx < 16 && if by_value {
                other < 0x100
            } else {
                other < 16
            },
            OpCode::ADD { vx, byte } => vx < 16 && byte < 0x100,
            OpCode::OR { vx, vy } => vx < 16 && vy < 16,
            OpCode::AND { vx, vy } => vx < 16 && vy < 16,
            OpCode::XOR { vx, vy } => vx < 16 && vy < 16,
            OpCode::ADDREG { vx, vy } => vx < 16 && vy < 16,
            OpCode::SUB { vx, vy } => vx < 16 && vy < 16,
            OpCode::SHR { vx, vy } => vx < 16 && vy < 16,
            OpCode::SUBN { vx, vy } => vx < 16 && vy < 16,
            OpCode::SHL { vx, vy } => vx < 16 && vy < 16,
            OpCode::LDI { addr } => addr < 0x1000,
            OpCode::JPV0 { addr } => addr < 0x1000,
            OpCode::RND { vx, byte } => vx < 16 && byte < 0x100,
            OpCode::DRW { vx, vy, nibble } => vx < 16 && vy < 16 && nibble < 16,
            OpCode::SKP { vx } => vx < 16,
            OpCode::SKNP { vx } => vx < 16,
            OpCode::LDVXDT { vx } => vx < 16,
            OpCode::LDK { vx } => vx < 16,
            OpCode::LDDTVX { vx } => vx < 16,
            OpCode::LDSTVX { vx } => vx < 16,
            OpCode::ADDI { vx } => vx < 16,
            OpCode::LDF { vx } => vx < 16,
            OpCode::LDB { vx } => vx < 16,
            OpCode::LDMEMI { vx } => vx < 16,
            OpCode::LDVXMEMI { vx } => vx < 16,
        }
    }
}

/// The operation that the 16-bit word `w` decodes to. Total: every word maps
/// to exactly one variant, unmatched patterns to `NOOP`.
pub open spec fn decoded(w: u16) -> OpCode {
    let n0 = w / 0x1000;
    let n1 = (w / 0x100) % 0x10;
    let n2 = (w / 0x10) % 0x10;
    let n3 = w % 0x10;
    let addr = w % 0x1000;
    let byte = w % 0x100;
    if n0 == 0 && n1 == 0 && n2 == 0xE && n3 == 0 {
        OpCode::CLS
    } else if n0 == 0 && n1 == 0 && n2 == 0xE && n3 == 0xE {
        OpCode::RET
    } else if n0 == 0 {
        OpCode::NOOP
    } else if n0 == 1 {
        OpCode::JP { addr }
    } else if n0 == 2 {
        OpCode::CALL { addr }
    } else if n0 == 3 {
        OpCode::SE { vx: n1, other: byte, by_value: true }
    } else if n0 == 4 {
        OpCode::SNE { vx: n1, other: byte, by_value: true }
    } else if n0 == 5 && n3 == 0 {
        OpCode::SE { vx: n1, other: n2, by_value: false }
    } else if n0 == 6 {
        OpCode::LD { vx: n1, other: byte, by_value: true }
    } else if n0 == 7 {
        OpCode::ADD { vx: n1, byte }
    } else if n0 == 8 && n3 == 0 {
        OpCode::LD { vx: n1, other: n2, by_value: false }
    } else if n0 == 8 && n3 == 1 {
        OpCode::OR { vx: n1, vy: n2 }
    } else if n0 == 8 && n3 == 2 {
        OpCode::AND { vx: n1, vy: n2 }
    } else if n0 == 8 && n3 == 3 {
        OpCode::XOR { vx: n1, vy: n2 }
    } else if n0 == 8 && n3 == 4 {
        OpCode::ADDREG { vx: n1, vy: n2 }
    } else if n0 == 8 && n3 == 5 {
        OpCode::SUB { vx: n1, vy: n2 }
    } else if n0 == 8 && n3 == 6 {
        OpCode::SHR { vx: n1, vy: n2 }
    } else if n0 == 8 && n3 == 7 {
        OpCode::SUBN { vx: n1, vy: n2 }
    } else if n0 == 8 && n3 == 0xE {
        OpCode::SHL { vx: n1, vy: n2 }
    } else if n0 == 9 && n3 == 0 {
        OpCode::SNE { vx: n1, other: n2, by_value: false }
    } else if n0 == 0xA {
        OpCode::LDI { addr }
    } else if n0 == 0xB {
        OpCode::JPV0 { addr }
    } else if n0 == 0xC {
        OpCode::RND { vx: n1, byte }
    } else if n0 == 0xD {
        OpCode::DRW { vx: n1, vy: n2, nibble: n3 }
    } else if n0 == 0xE && n2 == 9 && n3 == 0xE {
        OpCode::SKP { vx: n1 }
    } else if n0 == 0xE && n2 == 0xA && n3 == 1 {
        OpCode::SKNP { vx: n1 }
    } else if n0 == 0xF && n2 == 0 && n3 == 7 {
        OpCode::LDVXDT { vx: n1 }
    } else if n0 == 0xF && n2 == 0 && n3 == 0xA {
        OpCode::LDK { vx: n1 }
    } else if n0 == 0xF && n2 == 1 && n3 == 5 {
        OpCode::LDDTVX { vx: n1 }
    } else if n0 == 0xF && n2 == 1 && n3 == 8 {
        OpCode::LDSTVX { vx: n1 }
    } else if n0 == 0xF && n2 == 1 && n3 == 0xE {
        OpCode::ADDI { vx: n1 }
    } else if n0 == 0xF && n2 == 2 && n3 == 9 {
        OpCode::LDF { vx: n1 }
    } else if n0 == 0xF && n2 == 3 && n3 == 3 {
        OpCode::LDB { vx: n1 }
    } else if n0 == 0xF && n2 == 5 && n3 == 5 {
        OpCode::LDMEMI { vx: n1 }
    } else if n0 == 0xF && n2 == 6 && n3 == 5 {
        OpCode::LDVXMEMI { vx: n1 }
    } else {
        OpCode::NOOP
    }
}

/// Decoding always yields a well-formed opcode: every extracted field lies
/// within its bit width.
pub proof fn lemma_decoded_wf(w: u16)
    ensures
        decoded(w).wf(),
{
}

impl From<Instruction> for OpCode {
    fn from(instruction: Instruction) -> (r: OpCode) {
        match instruction.tuple() {
            (0, 0, 0xE, 0) => OpCode::CLS,
            (0, 0, 0xE, 0xE) => OpCode::RET,
            (0, _, _, _) => OpCode::NOOP,
            (1, _, _, _) => OpCode::JP { addr: instruction.addr() },
            (2, _, _, _) => OpCode::CALL { addr: instruction.addr() },
            (3, _, _, _) => OpCode::SE { vx: instruction.x(), other: instruction.byte(), by_value: true },
            (4, _, _, _) => OpCode::SNE { vx: instruction.x(), other: instruction.byte(), by_value: true },
            (5, _, _, 0) => OpCode::SE { vx: instruction.x(), other: instruction.y(), by_value: false },
            (6, _, _, _) => OpCode::LD { vx: instruction.x(), other: instruction.byte(), by_value: true },
            (7, _, _, _) => OpCode::ADD { vx: instruction.x(), byte: instruction.byte() },
            (8, _, _, 0) => OpCode::LD { vx: instruction.x(), other: instruction.y(), by_value: false },
            (8, _, _, 1) => OpCode::OR { vx: instruction.x(), vy: instruction.y() },
            (8, _, _, 2) => OpCode::AND { vx: instruction.x(), vy: instruction.y() },
            (8, _, _, 3) => OpCode::XOR { vx: instruction.x(), vy: instruction.y() },
            (8, _, _, 4) => OpCode::ADDREG { vx: instruction.x(), vy: instruction.y() },
            (8, _, _, 5) => OpCode::SUB { vx: instruction.x(), vy: instruction.y() },
            (8, _, _, 6) => OpCode::SHR { vx: instruction.x(), vy: instruction.y() },
            (8, _, _, 7) => OpCode::SUBN { vx: instruction.x(), vy: instruction.y() },
            (8, _, _, 0xE) => OpCode::SHL { vx: instruction.x(), vy: instruction.y() },
            (9, _, _, 0) => OpCode::SNE { vx: instruction.x(), other: instruction.y(), by_value: false },
            (0xA, _, _, _) => OpCode::LDI { addr: instruction.addr() },
            (0xB, _, _, _) => OpCode::JPV0 { addr: instruction.addr() },
            (0xC, _, _, _) => OpCode::RND { vx: instruction.x(), byte: instruction.byte() },
            (0xD, _, _, _) => OpCode::DRW {
                vx: instruction.x(),
                vy: instruction.y(),
                nibble: instruction.nibble(),
            },
            (0xE, _, 9, 0xE) => OpCode::SKP { vx: instruction.x() },
            (0xE, _, 0xA, 0x1) => OpCode::SKNP { vx: instruction.x() },
            (0xF, _, 0x0, 0x7) => OpCode::LDVXDT { vx: instruction.x() },
            (0xF, _, 0x0, 0xA) => OpCode::LDK { vx: instruction.x() },
            (0xF, _, 0x1, 0x5) => OpCode::LDDTVX { vx: instruction.x() },
            (0xF, _, 0x1, 0x8) => OpCode::LDSTVX { vx: instruction.x() },
            (0xF, _, 0x1, 0xE) => OpCode::ADDI { vx: instruction.x() },
            (0xF, _, 0x2, 0x9) => OpCode::LDF { vx: instruction.x() },
            (0xF, _, 0x3, 0x3) => OpCode::LDB { vx: instruction.x() },
            (0xF, _, 0x5, 0x5) => OpCode::LDMEMI { vx: instruction.x() },
            (0xF, _, 0x6, 0x5) => OpCode::LDVXMEMI { vx: instruction.x() },
            _ => OpCode::NOOP,
        }
    }
}

impl vstd::std_specs::convert::FromSpecImpl<Instruction> for OpCode {
    open spec fn obeys_from_spec() -> bool {
        true
    }

    open spec fn from_spec(instruction: Instruction) -> OpCode {
        decoded(instruction.instruction)
    }
}

} // verus!
