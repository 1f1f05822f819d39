//! A register-based virtual machine for compact precompiled binary chunks:
//! a binary chunk deserializer, a tagged value / table / closure data model,
//! and a fetch-decode-dispatch execution engine over a flat value stack.

use vstd::prelude::*;

pub mod api;
pub mod chunk;
pub mod constants;
pub mod function;
pub mod instruction;
pub mod opcodes;
pub mod stack;
pub mod state;
pub mod table;
pub mod value;
pub mod vm;

verus! {

/// Version byte every accepted chunk must carry.
pub const LUAC_VERSION: u8 = 0x53;

/// Format byte every accepted chunk must carry.
pub const LUAC_FORMAT: u8 = 0;

/// Integer sentinel embedded in the header to detect size or endianness mismatches.
pub const LUAC_INT: i64 = 0x5678;

/// IEEE-754 bit pattern of the floating-point sentinel 370.5 embedded in the header.
pub const LUAC_NUM_BITS: u64 = 0x4077_2800_0000_0000;

/// Constant-pool tag bytes of the chunk format.
pub const TAG_NIL: u8 = 0x00;

pub const TAG_BOOLEAN: u8 = 0x01;

pub const TAG_NUMBER: u8 = 0x03;

pub const TAG_INTEGER: u8 = 0x13;

pub const TAG_SHORT_STR: u8 = 0x04;

pub const TAG_LONG_STR: u8 = 0x14;

/// Every failure the deserializer or the execution engine can surface.
///
/// No error is silently swallowed and no default value is ever substituted
/// for an error condition.
#[derive(Clone, Copy, Debug, PartialEq, Eq, Structural)]
pub enum LuaError {
    /// The chunk header or a length-prefixed record does not match the format.
    FormatError,
    /// An arithmetic or table-indexing operand has the wrong tag.
    TypeError,
    /// An instruction outside the implemented subset; carries its opcode.
    UnsupportedOpcode(u8),
    /// A register or frame access outside the allocated stack window.
    StackOverflow,
    /// A constant, upvalue or nested-prototype operand out of range.
    BadOperand,
}

} // verus!
