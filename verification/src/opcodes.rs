//! Opcode constants and mode-flag helpers. Bits 0..4 of an opcode select the
//! base operation; bit 5 is SHORT (16-bit operands), bit 6 is RETURN (the
//! return stack takes the working stack's role), bit 7 is KEEP (operands are
//! not consumed). `PUSH` is the KEEP variant of the `BRK` base code.

use vstd::prelude::*;

verus! {

pub const BRK: u8 = 0x00;
pub const INC: u8 = 0x01;
pub const DUP: u8 = 0x06;
pub const DUP2: u8 = 0x26;
pub const EQU: u8 = 0x08;
pub const EQU2: u8 = 0x28;
pub const JMP: u8 = 0x0c;
pub const JMP2: u8 = 0x2c;
pub const JNZ: u8 = 0x0d;
pub const JNZ2: u8 = 0x2d;
pub const LDZ: u8 = 0x10;
pub const LDZ2: u8 = 0x30;
pub const STZ: u8 = 0x11;
pub const STZ2: u8 = 0x31;
pub const DEI: u8 = 0x16;
pub const DEO: u8 = 0x17;
pub const DEO2: u8 = 0x37;
pub const ADD: u8 = 0x18;
pub const ADD2: u8 = 0x38;
pub const SUB: u8 = 0x19;
pub const SUB2: u8 = 0x39;
pub const MUL: u8 = 0x1a;
pub const MUL2: u8 = 0x3a;
pub const DIV: u8 = 0x1b;
pub const DIV2: u8 = 0x3b;
pub const PUSH: u8 = 0x80;
pub const PUSH2: u8 = 0xa0;

/// Mask selecting the base operation from an opcode byte.
pub const BASE_MASK: u8 = 0x1f;

pub const FLAG_SHORT: u8 = 0x20;
pub const FLAG_RET: u8 = 0x40;
pub const FLAG_KEEP: u8 = 0x80;

pub fn short_mode(opcode: u8) -> (r: bool)
    ensures
        r == ((opcode & FLAG_SHORT) == FLAG_SHORT),
{
    (opcode & FLAG_SHORT) == FLAG_SHORT
}

pub fn ret_mode(opcode: u8) -> (r: bool)
    ensures
        r == ((opcode & FLAG_RET) == FLAG_RET),
{
    (opcode & FLAG_RET) == FLAG_RET
}

pub fn keep_mode(opcode: u8) -> (r: bool)
    ensures
        r == ((opcode & FLAG_KEEP) == FLAG_KEEP),
{
    (opcode & FLAG_KEEP) == FLAG_KEEP
}

} // verus!
