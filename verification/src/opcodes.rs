//! The opcode table: one ordered source of truth mapping each numeric
//! opcode to its display name, its instruction layout, and the addressing
//! modes of its B and C operands.  Dispatch is by positional index, so the
//! order here must match the numeric opcode values exactly.

use vstd::prelude::*;

verus! {

/// Instruction layouts.
pub const OP_MODE_ABC: u8 = 0;

pub const OP_MODE_ABX: u8 = 1;

pub const OP_MODE_ASBX: u8 = 2;

pub const OP_MODE_AX: u8 = 3;

/// Operand addressing modes: not used, plain index or count, register
/// index, constant-or-register.
pub const OP_ARG_N: u8 = 0;

pub const OP_ARG_U: u8 = 1;

pub const OP_ARG_R: u8 = 2;

pub const OP_ARG_K: u8 = 3;

/// The numeric opcodes, in the fixed order of the bytecode version.
pub const OP_MOVE: u8 = 0;

pub const OP_LOADK: u8 = 1;

pub const OP_LOADKX: u8 = 2;

pub const OP_LOADBOOL: u8 = 3;

pub const OP_LOADNIL: u8 = 4;

pub const OP_GETUPVAL: u8 = 5;

pub const OP_GETTABUP: u8 = 6;

pub const OP_GETTABLE: u8 = 7;

pub const OP_SETTABUP: u8 = 8;

pub const OP_SETUPVAL: u8 = 9;

pub const OP_SETTABLE: u8 = 10;

pub const OP_NEWTABLE: u8 = 11;

pub const OP_SELF: u8 = 12;

pub const OP_ADD: u8 = 13;

pub const OP_SUB: u8 = 14;

pub const OP_MUL: u8 = 15;

pub const OP_MOD: u8 = 16;

pub const OP_POW: u8 = 17;

pub const OP_DIV: u8 = 18;

pub const OP_IDIV: u8 = 19;

pub const OP_BAND: u8 = 20;

pub const OP_BOR: u8 = 21;

pub const OP_BXOR: u8 = 22;

pub const OP_SHL: u8 = 23;

pub const OP_SHR: u8 = 24;

pub const OP_UNM: u8 = 25;

pub const OP_BNOT: u8 = 26;

pub const OP_NOT: u8 = 27;

pub const OP_LEN: u8 = 28;

pub const OP_CONCAT: u8 = 29;

pub const OP_JMP: u8 = 30;

pub const OP_EQ: u8 = 31;

pub const OP_LT: u8 = 32;

pub const OP_LE: u8 = 33;

pub const OP_TEST: u8 = 34;

pub const OP_TESTSET: u8 = 35;

pub const OP_CALL: u8 = 36;

pub const OP_TAILCALL: u8 = 37;

pub const OP_RETURN: u8 = 38;

pub const OP_FORLOOP: u8 = 39;

pub const OP_FORPREP: u8 = 40;

pub const OP_TFORCALL: u8 = 41;

pub const OP_TFORLOOP: u8 = 42;

pub const OP_SETLIST: u8 = 43;

pub const OP_CLOSURE: u8 = 44;

pub const OP_VARARG: u8 = 45;

pub const OP_EXTRAARG: u8 = 46;

/// One opcode's metadata.
pub struct OpCode {
    pub bmode: u8,
    pub cmode: u8,
    pub opmode: u8,
    pub name: &'static str,
}

/// Builds one table entry.
pub fn opcode(bmode: u8, cmode: u8, opmode: u8, name: &'static str) -> (r: OpCode)
    ensures
        r.bmode == bmode,
        r.cmode == cmode,
        r.opmode == opmode,
        r.name@ == name@,
{
    OpCode { bmode, cmode, opmode, name }
}

/// The instruction layout of `op`.
pub open spec fn spec_opmode(op: u8) -> u8 {
    if op == OP_LOADK || op == OP_LOADKX || op == OP_CLOSURE {
        OP_MODE_ABX
    } else if op == OP_JMP || op == OP_FORLOOP || op == OP_FORPREP || op == OP_TFORLOOP {
        OP_MODE_ASBX
    } else if op == OP_EXTRAARG {
        OP_MODE_AX
    } else {
        OP_MODE_ABC
    }
}

/// The addressing mode of the B operand of `op`.
pub open spec fn spec_bmode(op: u8) -> u8 {
    if op == OP_MOVE || op == OP_GETTABLE || op == OP_SELF || op == OP_UNM || op == OP_BNOT || op
        == OP_NOT || op == OP_LEN || op == OP_CONCAT || op == OP_JMP || op == OP_TESTSET || op
        == OP_FORLOOP || op == OP_FORPREP || op == OP_TFORLOOP {
        OP_ARG_R
    } else if op == OP_LOADK || op == OP_SETTABUP || op == OP_SETTABLE || op == OP_ADD || op
        == OP_SUB || op == OP_MUL || op == OP_MOD || op == OP_POW || op == OP_DIV || op == OP_IDIV
        || op == OP_BAND || op == OP_BOR || op == OP_BXOR || op == OP_SHL || op == OP_SHR || op
        == OP_EQ || op == OP_LT || op == OP_LE {
        OP_ARG_K
    } else if op == OP_LOADKX || op == OP_TEST || op == OP_TFORCALL {
        OP_ARG_N
    } else {
        OP_ARG_U
    }
}

/// The addressing mode of the C operand of `op`.
pub open spec fn spec_cmode(op: u8) -> u8 {
    if op == OP_GETTABUP || op == OP_GETTABLE || op == OP_SETTABUP || op == OP_SETTABLE || op
        == OP_SELF || op == OP_ADD || op == OP_SUB || op == OP_MUL || op == OP_MOD || op == OP_POW
        || op == OP_DIV || op == OP_IDIV || op == OP_BAND || op == OP_BOR || op == OP_BXOR || op
        == OP_SHL || op == OP_SHR || op == OP_EQ || op == OP_LT || op == OP_LE {
        OP_ARG_K
    } else if op == OP_CONCAT {
        OP_ARG_R
    } else if op == OP_LOADBOOL || op == OP_NEWTABLE || op == OP_TEST || op == OP_TESTSET || op
        == OP_CALL || op == OP_TAILCALL || op == OP_TFORCALL || op == OP_SETLIST || op
        == OP_EXTRAARG {
        OP_ARG_U
    } else {
        OP_ARG_N
    }
}

/// The display name of `op`, as the table declares it.
pub open spec fn spec_opname(op: u8) -> Seq<char> {
    if op == OP_MOVE {
        "MOVE    "@
    } else if op == OP_LOADK {
        "LOADK   "@
    } else if op == OP_LOADKX {
        "LOADKX  "@
    } else if op == OP_LOADBOOL {
        "LOADBOOL"@
    } else if op == OP_LOADNIL {
        "LOADNIL "@
    } else if op == OP_GETUPVAL {
        "GETUPVAL"@
    } else if op == OP_GETTABUP {
        "GETTABUP"@
    } else if op == OP_GETTABLE {
        "GETTABLE"@
    } else if op == OP_SETTABUP {
        "SETTABUP"@
    } else if op == OP_SETUPVAL {
        "SETUPVAL"@
    } else if op == OP_SETTABLE {
        "SETTABLE"@
    } else if op == OP_NEWTABLE {
        "NEWTABLE"@
    } else if op == OP_SELF {
        "SELF    "@
    } else if op == OP_ADD {
        "ADD     "@
    } else if op == OP_SUB {
        "SUB     "@
    } else if op == OP_MUL {
        "MUL     "@
    } else if op == OP_MOD {
        "MOD     "@
    } else if op == OP_POW {
        "POW     "@
    } else if op == OP_DIV {
        "DIV     "@
    } else if op == OP_IDIV {
        "IDIV    "@
    } else if op == OP_BAND {
        "BAND    "@
    } else if op == OP_BOR {
        "BOR     "@
    } else if op == OP_BXOR {
        "BXOR    "@
    } else if op == OP_SHL {
        "SHL     "@
    } else if op == OP_SHR {
        "SHR     "@
    } else if op == OP_UNM {
        "UNM     "@
    } else if op == OP_BNOT {
        "BNOT    "@
    } else if op == OP_NOT {
        "NOT     "@
    } else if op == OP_LEN {
        "LEN     "@
    } else if op == OP_CONCAT {
        "CONCAT  "@
    } else if op == OP_JMP {
        "JMP     "@
    } else if op == OP_EQ {
        "EQ      "@
    } else if op == OP_LT {
        "LT      "@
    } else if op == OP_LE {
        "LE      "@
    } else if op == OP_TEST {
        "TEST    "@
    } else if op == OP_TESTSET {
        "TESTSET "@
    } else if op == OP_CALL {
        "CALL    "@
    } else if op == OP_TAILCALL {
        "TAILCALL"@
    } else if op == OP_RETURN {
        "RETURN  "@
    } else if op == OP_FORLOOP {
        "FORLOOP "@
    } else if op == OP_FORPREP {
        "FORPREP "@
    } else if op == OP_TFORCALL {
        "TFORCALL"@
    } else if op == OP_TFORLOOP {
        "TFORLOOP"@
    } else if op == OP_SETLIST {
        "SETLIST "@
    } else if op == OP_CLOSURE {
        "CLOSURE "@
    } else if op == OP_VARARG {
        "VARARG  "@
    } else {
        "EXTRAARG"@
    }
}

/// The table entry of `op`, with the modes the spec-level table declares.
pub fn opcodes(op: u8) -> (r: OpCode)
    requires
        op <= 46,
    ensures
        r.bmode == spec_bmode(op),
        r.cmode == spec_cmode(op),
        r.opmode == spec_opmode(op),
        r.name@ == spec_opname(op),
{
    if op == OP_MOVE {
        opcode(OP_ARG_R, OP_ARG_N, OP_MODE_ABC, "MOVE    ")
    } else if op == OP_LOADK {
        opcode(OP_ARG_K, OP_ARG_N, OP_MODE_ABX, "LOADK   ")
    } else if op == OP_LOADKX {
        opcode(OP_ARG_N, OP_ARG_N, OP_MODE_ABX, "LOADKX  ")
    } else if op == OP_LOADBOOL {
        opcode(OP_ARG_U, OP_ARG_U, OP_MODE_ABC, "LOADBOOL")
    } else if op == OP_LOADNIL {
        opcode(OP_ARG_U, OP_ARG_N, OP_MODE_ABC, "LOADNIL ")
    } else if op == OP_GETUPVAL {
        opcode(OP_ARG_U, OP_ARG_N, OP_MODE_ABC, "GETUPVAL")
    } else if op == OP_GETTABUP {
        opcode(OP_ARG_U, OP_ARG_K, OP_MODE_ABC, "GETTABUP")
    } else if op == OP_GETTABLE {
        opcode(OP_ARG_R, OP_ARG_K, OP_MODE_ABC, "GETTABLE")
    } else if op == OP_SETTABUP {
        opcode(OP_ARG_K, OP_ARG_K, OP_MODE_ABC, "SETTABUP")
    } else if op == OP_SETUPVAL {
        opcode(OP_ARG_U, OP_ARG_N, OP_MODE_ABC, "SETUPVAL")
    } else if op == OP_SETTABLE {
        opcode(OP_ARG_K, OP_ARG_K, OP_MODE_ABC, "SETTABLE")
    } else if op == OP_NEWTABLE {
        opcode(OP_ARG_U, OP_ARG_U, OP_MODE_ABC, "NEWTABLE")
    } else if op == OP_SELF {
        opcode(OP_ARG_R, OP_ARG_K, OP_MODE_ABC, "SELF    ")
    } else if op == OP_ADD {
        opcode(OP_ARG_K, OP_ARG_K, OP_MODE_ABC, "ADD     ")
    } else if op == OP_SUB {
        opcode(OP_ARG_K, OP_ARG_K, OP_MODE_ABC, "SUB     ")
    } else if op == OP_MUL {
        opcode(OP_ARG_K, OP_ARG_K, OP_MODE_ABC, "MUL     ")
    } else if op == OP_MOD {
        opcode(OP_ARG_K, OP_ARG_K, OP_MODE_ABC, "MOD     ")
    } else if op == OP_POW {
        opcode(OP_ARG_K, OP_ARG_K, OP_MODE_ABC, "POW     ")
    } else if op == OP_DIV {
        opcode(OP_ARG_K, OP_ARG_K, OP_MODE_ABC, "DIV     ")
    } else if op == OP_IDIV {
        opcode(OP_ARG_K, OP_ARG_K, OP_MODE_ABC, "IDIV    ")
    } else if op == OP_BAND {
        opcode(OP_ARG_K, OP_ARG_K, OP_MODE_ABC, "BAND    ")
    } else if op == OP_BOR {
        opcode(OP_ARG_K, OP_ARG_K, OP_MODE_ABC, "BOR     ")
    } else if op == OP_BXOR {
        opcode(OP_ARG_K, OP_ARG_K, OP_MODE_ABC, "BXOR    ")
    } else if op == OP_SHL {
        opcode(OP_ARG_K, OP_ARG_K, OP_MODE_ABC, "SHL     ")
    } else if op == OP_SHR {
        opcode(OP_ARG_K, OP_ARG_K, OP_MODE_ABC, "SHR     ")
    } else if op == OP_UNM {
        opcode(OP_ARG_R, OP_ARG_N, OP_MODE_ABC, "UNM     ")
    } else if op == OP_BNOT {
        opcode(OP_ARG_R, OP_ARG_N, OP_MODE_ABC, "BNOT    ")
    } else if op == OP_NOT {
        opcode(OP_ARG_R, OP_ARG_N, OP_MODE_ABC, "NOT     ")
    } else if op == OP_LEN {
        opcode(OP_ARG_R, OP_ARG_N, OP_MODE_ABC, "LEN     ")
    } else if op == OP_CONCAT {
        opcode(OP_ARG_R, OP_ARG_R, OP_MODE_ABC, "CONCAT  ")
    } else if op == OP_JMP {
        opcode(OP_ARG_R, OP_ARG_N, OP_MODE_ASBX, "JMP     ")
    } else if op == OP_EQ {
        opcode(OP_ARG_K, OP_ARG_K, OP_MODE_ABC, "EQ      ")
    } else if op == OP_LT {
        opcode(OP_ARG_K, OP_ARG_K, OP_MODE_ABC, "LT      ")
    } else if op == OP_LE {
        opcode(OP_ARG_K, OP_ARG_K, OP_MODE_ABC, "LE      ")
    } else if op == OP_TEST {
        opcode(OP_ARG_N, OP_ARG_U, OP_MODE_ABC, "TEST    ")
    } else if op == OP_TESTSET {
        opcode(OP_ARG_R, OP_ARG_U, OP_MODE_ABC, "TESTSET ")
    } else if op == OP_CALL {
        opcode(OP_ARG_U, OP_ARG_U, OP_MODE_ABC, "CALL    ")
    } else if op == OP_TAILCALL {
        opcode(OP_ARG_U, OP_ARG_U, OP_MODE_ABC, "TAILCALL")
    } else if op == OP_RETURN {
        opcode(OP_ARG_U, OP_ARG_N, OP_MODE_ABC, "RETURN  ")
    } else if op == OP_FORLOOP {
        opcode(OP_ARG_R, OP_ARG_N, OP_MODE_ASBX, "FORLOOP ")
    } else if op == OP_FORPREP {
        opcode(OP_ARG_R, OP_ARG_N, OP_MODE_ASBX, "FORPREP ")
    } else if op == OP_TFORCALL {
        opcode(OP_ARG_N, OP_ARG_U, OP_MODE_ABC, "TFORCALL")
    } else if op == OP_TFORLOOP {
        opcode(OP_ARG_R, OP_ARG_N, OP_MODE_ASBX, "TFORLOOP")
    } else if op == OP_SETLIST {
        opcode(OP_ARG_U, OP_ARG_U, OP_MODE_ABC, "SETLIST ")
    } else if op == OP_CLOSURE {
        opcode(OP_ARG_U, OP_ARG_N, OP_MODE_ABX, "CLOSURE ")
    } else if op == OP_VARARG {
        opcode(OP_ARG_U, OP_ARG_N, OP_MODE_ABC, "VARARG  ")
    } else {
        opcode(OP_ARG_U, OP_ARG_U, OP_MODE_AX, "EXTRAARG")
    }
}

} // verus!
