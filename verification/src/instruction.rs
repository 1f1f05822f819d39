//! The instruction codec: a 32-bit word packs the opcode in its low 6 bits
//! and, depending on the opcode's layout, operands A (8 bits), B and C
//! (9 bits each), Bx (18 bits), sBx (18 bits, bias-encoded), or Ax (26
//! bits).

use vstd::prelude::*;

use crate::opcodes::OpCode;
use crate::opcodes::opcodes;
use crate::opcodes::spec_bmode;
use crate::opcodes::spec_opname;
use crate::opcodes::spec_cmode;
use crate::opcodes::spec_opmode;

verus! {

/// The bias subtracted from Bx to obtain the signed sBx operand.
pub const MAXARG_SBX: i64 = 131071;

/// Decoding of one packed 32-bit instruction word.
pub trait Instruction: Sized {
    /// The opcode: low 6 bits.
    spec fn spec_opcode(self) -> u8;

    /// Operand A: bits 6 to 13.
    spec fn spec_a(self) -> usize;

    /// Operand B: bits 23 to 31.
    spec fn spec_b(self) -> usize;

    /// Operand C: bits 14 to 22.
    spec fn spec_c(self) -> usize;

    /// Operand Bx: bits 14 to 31.
    spec fn spec_bx(self) -> usize;

    /// Operand Ax: bits 6 to 31.
    spec fn spec_ax(self) -> usize;

    fn opcode(self) -> (r: u8)
        ensures
            r == self.spec_opcode(),
    ;

    fn abc(self) -> (r: (usize, usize, usize))
        ensures
            r == (self.spec_a(), self.spec_b(), self.spec_c()),
    ;

    fn a_bx(self) -> (r: (usize, usize))
        ensures
            r == (self.spec_a(), self.spec_bx()),
    ;

    fn a_sbx(self) -> (r: (usize, i64))
        ensures
            r.0 == self.spec_a(),
            r.1 == self.spec_bx() - MAXARG_SBX,
    ;

    fn ax(self) -> (r: usize)
        ensures
            r == self.spec_ax(),
    ;

    fn opname(self) -> (r: &'static str)
        requires
            self.spec_opcode() <= 46,
        ensures
            r@ == spec_opname(self.spec_opcode()),
    ;

    fn opmode(self) -> (r: u8)
        requires
            self.spec_opcode() <= 46,
        ensures
            r == spec_opmode(self.spec_opcode()),
    ;

    fn b_mode(self) -> (r: u8)
        requires
            self.spec_opcode() <= 46,
        ensures
            r == spec_bmode(self.spec_opcode()),
    ;

    fn c_mode(self) -> (r: u8)
        requires
            self.spec_opcode() <= 46,
        ensures
            r == spec_cmode(self.spec_opcode()),
    ;
}

impl Instruction for u32 {
    open spec fn spec_opcode(self) -> u8 {
        (self & 0x3f) as u8
    }

    open spec fn spec_a(self) -> usize {
        ((self >> 6) & 0xff) as usize
    }

    open spec fn spec_b(self) -> usize {
        ((self >> 23) & 0x1ff) as usize
    }

    open spec fn spec_c(self) -> usize {
        ((self >> 14) & 0x1ff) as usize
    }

    open spec fn spec_bx(self) -> usize {
        (self >> 14) as usize
    }

    open spec fn spec_ax(self) -> usize {
        (self >> 6) as usize
    }

    fn opcode(self) -> (r: u8)
        ensures
            r == self.spec_opcode(),
    {
        (self & 0x3f) as u8
    }

    fn abc(self) -> (r: (usize, usize, usize))
        ensures
            r == (self.spec_a(), self.spec_b(), self.spec_c()),
    {
        let a = ((self >> 6) & 0xff) as usize;
        let c = ((self >> 14) & 0x1ff) as usize;
        let b = ((self >> 23) & 0x1ff) as usize;
        (a, b, c)
    }

    fn a_bx(self) -> (r: (usize, usize))
        ensures
            r == (self.spec_a(), self.spec_bx()),
    {
        let a = ((self >> 6) & 0xff) as usize;
        let bx = (self >> 14) as usize;
        (a, bx)
    }

    fn a_sbx(self) -> (r: (usize, i64))
        ensures
            r.0 == self.spec_a(),
            r.1 == self.spec_bx() - MAXARG_SBX,
    {
        let (a, bx) = self.a_bx();
        proof {
            assert(self >> 14 <= 0x3ffff) by (bit_vector);
        }
        (a, bx as i64 - MAXARG_SBX)
    }

    fn ax(self) -> (r: usize)
        ensures
            r == self.spec_ax(),
    {
        (self >> 6) as usize
    }

    fn opname(self) -> (r: &'static str)
        ensures
            r@ == spec_opname(self.spec_opcode()),
    {
        opcodes(self.opcode()).name
    }

    fn opmode(self) -> (r: u8)
        ensures
            r == spec_opmode(self.spec_opcode()),
    {
        opcodes(self.opcode()).opmode
    }

    fn b_mode(self) -> (r: u8)
        ensures
            r == spec_bmode(self.spec_opcode()),
    {
        opcodes(self.opcode()).bmode
    }

    fn c_mode(self) -> (r: u8)
        ensures
            r == spec_cmode(self.spec_opcode()),
    {
        opcodes(self.opcode()).cmode
    }
}

} // verus!
