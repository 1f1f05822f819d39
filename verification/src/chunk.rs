//! Binary chunk deserializer: parses the fixed header and the recursive
//! function-prototype tree out of a raw byte buffer.
//!
//! Every record is specified by a spec-level parser over `Seq<u8>`; the
//! executable parser is proved to return exactly what the spec parser does.

use vstd::prelude::*;

use crate::LuaError;
use crate::LUAC_NUM_BITS;

verus! {

broadcast use
    vstd::std_specs::vec::axiom_vec_index_decreases,
    vstd::std_specs::vec::axiom_vec_decreases_to_view,
    vstd::seq::axiom_seq_index_decreases,
;

/// The little-endian 32-bit value stored at `pos`.
pub open spec fn le32(s: Seq<u8>, pos: int) -> int {
    s[pos] + 0x100 * s[pos + 1] + 0x1_0000 * s[pos + 2] + 0x100_0000 * s[pos + 3]
}

/// The little-endian 64-bit value stored at `pos`.
pub open spec fn le64(s: Seq<u8>, pos: int) -> int {
    le32(s, pos) + 0x1_0000_0000 * le32(s, pos + 4)
}

/// Reads one byte.
fn read_u8(b: &[u8], pos: usize) -> (r: Result<(u8, usize), LuaError>)
    ensures
        match r {
            Ok((v, p)) => pos < b@.len() && v == b@[pos as int] && p == pos + 1,
            Err(e) => pos >= b@.len() && e == LuaError::FormatError,
        },
{
    if pos < b.len() {
        Ok((b[pos], pos + 1))
    } else {
        Err(LuaError::FormatError)
    }
}

/// Reads a little-endian 32-bit word.
fn read_u32(b: &[u8], pos: usize) -> (r: Result<(u32, usize), LuaError>)
    ensures
        match r {
            Ok((v, p)) => pos + 4 <= b@.len() && v == le32(b@, pos as int) && p == pos + 4,
            Err(e) => pos + 4 > b@.len() && e == LuaError::FormatError,
        },
{
    if b.len() >= 4 && pos <= b.len() - 4 {
        let v: u32 = b[pos] as u32 + 0x100 * (b[pos + 1] as u32) + 0x1_0000 * (b[pos + 2] as u32)
            + 0x100_0000 * (b[pos + 3] as u32);
        Ok((v, pos + 4))
    } else {
        Err(LuaError::FormatError)
    }
}

/// Reads a little-endian 64-bit word.
fn read_u64(b: &[u8], pos: usize) -> (r: Result<(u64, usize), LuaError>)
    ensures
        match r {
            Ok((v, p)) => pos + 8 <= b@.len() && v == le64(b@, pos as int) && p == pos + 8,
            Err(e) => pos + 8 > b@.len() && e == LuaError::FormatError,
        },
{
    if b.len() >= 8 && pos <= b.len() - 8 {
        let lo: u32 = match read_u32(b, pos) {
            Ok((v, _)) => v,
            Err(e) => { return Err(e); },
        };
        let hi: u32 = match read_u32(b, pos + 4) {
            Ok((v, _)) => v,
            Err(e) => { return Err(e); },
        };
        let v: u64 = lo as u64 + 0x1_0000_0000 * (hi as u64);
        Ok((v, pos + 8))
    } else {
        Err(LuaError::FormatError)
    }
}

/// Copies `n` bytes starting at `pos`.
fn read_bytes(b: &[u8], pos: usize, n: usize) -> (r: Result<(Vec<u8>, usize), LuaError>)
    ensures
        match r {
            Ok((v, p)) => pos + n <= b@.len() && v@ == b@.subrange(pos as int, pos + n) && p == pos
                + n,
            Err(e) => pos + n > b@.len() && e == LuaError::FormatError,
        },
{
    if b.len() < n || pos > b.len() - n {
        return Err(LuaError::FormatError);
    }
    let mut v: Vec<u8> = Vec::new();
    let mut i: usize = 0;
    while i < n
        invariant
            pos + n <= b@.len(),
            b@.len() <= usize::MAX,
            i <= n,
            v@ == b@.subrange(pos as int, pos + i),
        decreases n - i,
    {
        v.push(b[pos + i]);
        i = i + 1;
        proof {
            assert(v@ =~= b@.subrange(pos as int, pos + i));
        }
    }
    Ok((v, pos + n))
}

/// The fixed-size chunk header, with the floating-point sanity constant held
/// as its IEEE-754 bit pattern.
#[derive(Debug)]
pub struct Header {
    pub signature: Vec<u8>,
    pub version: u8,
    pub format: u8,
    pub luac_data: Vec<u8>,
    pub c_int_size: u8,
    pub c_size_t_size: u8,
    pub instruction_size: u8,
    pub lua_integer_size: u8,
    pub lua_number_size: u8,
    pub luac_int: i64,
    pub luac_num_bits: u64,
}

/// The exact bytes a valid header must start with: 4-byte signature, version,
/// format, 6-byte literal tail, five size markers, and the two sanity
/// constants.
pub open spec fn header_ok(s: Seq<u8>) -> bool {
    &&& s.len() >= 33
    &&& s[0] == 0x1b
    &&& s[1] == 0x4c
    &&& s[2] == 0x75
    &&& s[3] == 0x61
    &&& s[4] == 0x53
    &&& s[5] == 0x00
    &&& s[6] == 0x19
    &&& s[7] == 0x93
    &&& s[8] == 0x0d
    &&& s[9] == 0x0a
    &&& s[10] == 0x1a
    &&& s[11] == 0x0a
    &&& s[12] == 4
    &&& s[13] == 8
    &&& s[14] == 4
    &&& s[15] == 8
    &&& s[16] == 8
    &&& le64(s, 17) == 0x5678
    &&& le64(s, 25) == LUAC_NUM_BITS
}

impl Header {
    /// Parses the 33-byte fixed header, accepting exactly the documented
    /// literal bytes and rejecting everything else.
    pub fn parse(b: &[u8]) -> (r: Result<(Header, usize), LuaError>)
        ensures
            match r {
                Ok((h, p)) => {
                    &&& header_ok(b@)
                    &&& p == 33
                    &&& h.signature@ == seq![0x1bu8, 0x4cu8, 0x75u8, 0x61u8]
                    &&& h.version == 0x53
                    &&& h.format == 0
                    &&& h.luac_data@ == seq![0x19u8, 0x93u8, 0x0du8, 0x0au8, 0x1au8, 0x0au8]
                    &&& h.c_int_size == 4
                    &&& h.c_size_t_size == 8
                    &&& h.instruction_size == 4
                    &&& h.lua_integer_size == 8
                    &&& h.lua_number_size == 8
                    &&& h.luac_int == 0x5678
                    &&& h.luac_num_bits == LUAC_NUM_BITS
                },
                Err(e) => !header_ok(b@) && e == LuaError::FormatError,
            },
    {
        if b.len() < 33 {
            return Err(LuaError::FormatError);
        }
        let (signature, p) = match read_bytes(b, 0, 4) {
            Ok(v) => v,
            Err(e) => { return Err(e); },
        };
        if !(signature[0] == 0x1b && signature[1] == 0x4c && signature[2] == 0x75 && signature[3]
            == 0x61) {
            return Err(LuaError::FormatError);
        }
        let version = b[4];
        let format = b[5];
        if version != 0x53 || format != 0x00 {
            return Err(LuaError::FormatError);
        }
        let (luac_data, _p) = match read_bytes(b, 6, 6) {
            Ok(v) => v,
            Err(e) => { return Err(e); },
        };
        if !(luac_data[0] == 0x19 && luac_data[1] == 0x93 && luac_data[2] == 0x0d && luac_data[3]
            == 0x0a && luac_data[4] == 0x1a && luac_data[5] == 0x0a) {
            return Err(LuaError::FormatError);
        }
        let c_int_size = b[12];
        let c_size_t_size = b[13];
        let instruction_size = b[14];
        let lua_integer_size = b[15];
        let lua_number_size = b[16];
        if !(c_int_size == 4 && c_size_t_size == 8 && instruction_size == 4 && lua_integer_size == 8
            && lua_number_size == 8) {
            return Err(LuaError::FormatError);
        }
        let (luac_int_bits, _p) = match read_u64(b, 17) {
            Ok(v) => v,
            Err(e) => { return Err(e); },
        };
        if luac_int_bits != 0x5678 {
            return Err(LuaError::FormatError);
        }
        let (luac_num_bits, _p) = match read_u64(b, 25) {
            Ok(v) => v,
            Err(e) => { return Err(e); },
        };
        if luac_num_bits != LUAC_NUM_BITS {
            return Err(LuaError::FormatError);
        }
        proof {
            assert(signature@ =~= seq![0x1bu8, 0x4cu8, 0x75u8, 0x61u8]);
            assert(luac_data@ =~= seq![0x19u8, 0x93u8, 0x0du8, 0x0au8, 0x1au8, 0x0au8]);
        }
        Ok(
            (
                Header {
                    signature,
                    version,
                    format,
                    luac_data,
                    c_int_size,
                    c_size_t_size,
                    instruction_size,
                    lua_integer_size,
                    lua_number_size,
                    luac_int: 0x5678,
                    luac_num_bits,
                },
                33,
            ),
        )
    }
}

} // verus!

use std::rc::Rc;

verus! {

/// A length-prefixed short string from a constant pool.  The stored length
/// is content length plus one; the content bytes are kept as-is.
#[derive(Clone, Debug, PartialEq, Eq)]
pub struct ShortString {
    pub value: Vec<u8>,
}

impl View for ShortString {
    type V = Seq<u8>;

    open spec fn view(&self) -> Seq<u8> {
        self.value@
    }
}

/// The selector byte that precedes a constant-pool entry.
#[derive(Clone, Copy, Debug, PartialEq, Eq, Structural)]
pub struct ConstantType(pub u8);

/// A constant-pool value as stored in a chunk.  A floating-point constant is
/// held as its IEEE-754 bit pattern.
#[derive(Clone, Debug, PartialEq, Eq)]
pub enum ConstantValue {
    Nil,
    Boolean(u8),
    Number(u64),
    Integer(i64),
    ShortStr(ShortString),
}

/// Mathematical model of a constant-pool value.
pub enum ConstVal {
    Nil,
    Boolean(u8),
    Number(u64),
    Integer(i64),
    Str(Seq<u8>),
}

impl View for ConstantValue {
    type V = ConstVal;

    open spec fn view(&self) -> ConstVal {
        match self {
            ConstantValue::Nil => ConstVal::Nil,
            ConstantValue::Boolean(v) => ConstVal::Boolean(*v),
            ConstantValue::Number(v) => ConstVal::Number(*v),
            ConstantValue::Integer(v) => ConstVal::Integer(*v),
            ConstantValue::ShortStr(s) => ConstVal::Str(s.value@),
        }
    }
}

/// A constant-pool entry: the selector byte and the value it selected.
#[derive(Clone, Debug, PartialEq, Eq)]
pub struct Constant {
    pub const_type: ConstantType,
    pub const_value: ConstantValue,
}

/// Mathematical model of a constant-pool entry.
pub struct ConstantView {
    pub t: u8,
    pub v: ConstVal,
}

impl View for Constant {
    type V = ConstantView;

    open spec fn view(&self) -> ConstantView {
        ConstantView { t: self.const_type.0, v: self.const_value@ }
    }
}

/// An upvalue descriptor: capture from the enclosing frame's registers
/// (`instack == 1`) or from the enclosing closure's upvalues, at `idx`.
#[derive(Clone, Copy, Debug, PartialEq, Eq, Structural)]
pub struct UpValue {
    pub instack: u8,
    pub idx: u8,
}

/// A local-variable name from the debug records.
#[derive(Clone, Debug, PartialEq, Eq)]
pub struct VariableName {
    pub value: Vec<u8>,
}

impl View for VariableName {
    type V = Seq<u8>;

    open spec fn view(&self) -> Seq<u8> {
        self.value@
    }
}

/// A local-variable debug record: name and the program-counter range in
/// which the variable is live.
#[derive(Clone, Debug, PartialEq, Eq)]
pub struct LocVar {
    pub var_name: VariableName,
    pub start_pc: u32,
    pub end_pc: u32,
}

/// Mathematical model of a local-variable debug record.
pub struct LocVarView {
    pub name: Seq<u8>,
    pub start_pc: u32,
    pub end_pc: u32,
}

impl View for LocVar {
    type V = LocVarView;

    open spec fn view(&self) -> LocVarView {
        LocVarView { name: self.var_name.value@, start_pc: self.start_pc, end_pc: self.end_pc }
    }
}

/// An upvalue name from the debug records.
#[derive(Clone, Debug, PartialEq, Eq)]
pub struct UpValueName {
    pub value: Vec<u8>,
}

impl View for UpValueName {
    type V = Seq<u8>;

    open spec fn view(&self) -> Seq<u8> {
        self.value@
    }
}

/// An immutable description of one function body, shared read-only between
/// every closure instantiated from it.
#[derive(Debug)]
pub struct Prototype {
    pub source: Option<Vec<u8>>,
    pub line_defined: u32,
    pub last_line_defined: u32,
    pub num_params: u8,
    pub is_vararg: u8,
    pub max_stack_size: u8,
    pub code: Vec<u32>,
    pub constants: Vec<Constant>,
    pub upvalues: Vec<UpValue>,
    pub prototypes: Vec<Rc<Prototype>>,
    pub line_info: Vec<u32>,
    pub loc_vars: Vec<LocVar>,
    pub upvalue_names: Vec<UpValueName>,
}

/// Mathematical model of a prototype, with nested prototypes modelled
/// recursively.
pub struct ProtoView {
    pub source: Option<Seq<u8>>,
    pub line_defined: u32,
    pub last_line_defined: u32,
    pub num_params: u8,
    pub is_vararg: u8,
    pub max_stack_size: u8,
    pub code: Seq<u32>,
    pub constants: Seq<ConstantView>,
    pub upvalues: Seq<UpValue>,
    pub prototypes: Seq<ProtoView>,
    pub line_info: Seq<u32>,
    pub loc_vars: Seq<LocVarView>,
    pub upvalue_names: Seq<Seq<u8>>,
}

/// The models of a sequence of shared prototypes.
pub open spec fn view_protos(s: Seq<Rc<Prototype>>) -> Seq<ProtoView>
    decreases s,
{
    Seq::new(
        s.len(),
        |i: int|
            if 0 <= i < s.len() {
                proto_view(*s[i])
            } else {
                arbitrary()
            },
    )
}

/// Mathematical model of a prototype value.
pub open spec fn proto_view(p: Prototype) -> ProtoView
    decreases p,
{
    ProtoView {
            source: match p.source {
                Some(v) => Some(v@),
                None => None,
            },
            line_defined: p.line_defined,
            last_line_defined: p.last_line_defined,
            num_params: p.num_params,
            is_vararg: p.is_vararg,
            max_stack_size: p.max_stack_size,
            code: p.code@,
            constants: Seq::new(p.constants@.len(), |i: int| p.constants@[i]@),
            upvalues: p.upvalues@,
            prototypes: view_protos(p.prototypes@),
            line_info: p.line_info@,
            loc_vars: Seq::new(p.loc_vars@.len(), |i: int| p.loc_vars@[i]@),
            upvalue_names: Seq::new(p.upvalue_names@.len(), |i: int| p.upvalue_names@[i]@),
        }
}

impl View for Prototype {
    type V = ProtoView;

    open spec fn view(&self) -> ProtoView {
        proto_view(*self)
    }
}

/// An entire chunk: header, top-level upvalue count, and the main prototype.
#[derive(Debug)]
pub struct Chunk {
    pub header: Header,
    pub size_upvalues: u8,
    pub main: Prototype,
}

} // verus!

verus! {

/// Spec parser for an optional length-prefixed string: a length byte of 0
/// means "absent"; otherwise the content is the following `length - 1` bytes.
pub open spec fn spec_parse_source(s: Seq<u8>, pos: int) -> Option<(Option<Seq<u8>>, int)> {
    if pos + 1 > s.len() {
        None
    } else {
        let l = s[pos] as int;
        if l == 0 {
            Some((None, pos + 1))
        } else if pos + l <= s.len() {
            Some((Some(s.subrange(pos + 1, pos + l)), pos + l))
        } else {
            None
        }
    }
}

/// Spec parser for a required length-prefixed string: the length byte must be
/// at least 1 and the content is the following `length - 1` bytes.
pub open spec fn spec_parse_name(s: Seq<u8>, pos: int) -> Option<(Seq<u8>, int)> {
    if pos + 1 > s.len() {
        None
    } else {
        let l = s[pos] as int;
        if l >= 1 && pos + l <= s.len() {
            Some((s.subrange(pos + 1, pos + l), pos + l))
        } else {
            None
        }
    }
}

/// Spec parser for one constant-pool entry: a selector byte followed by the
/// selected value.
pub open spec fn spec_parse_constant(s: Seq<u8>, pos: int) -> Option<(ConstantView, int)> {
    if pos + 1 > s.len() {
        None
    } else {
        let t = s[pos];
        if t == 0x00 {
            Some((ConstantView { t, v: ConstVal::Nil }, pos + 1))
        } else if t == 0x01 {
            if pos + 2 <= s.len() {
                Some((ConstantView { t, v: ConstVal::Boolean(s[pos + 1]) }, pos + 2))
            } else {
                None
            }
        } else if t == 0x03 {
            if pos + 9 <= s.len() {
                Some((ConstantView { t, v: ConstVal::Number(le64(s, pos + 1) as u64) }, pos + 9))
            } else {
                None
            }
        } else if t == 0x13 {
            if pos + 9 <= s.len() {
                Some((ConstantView { t, v: ConstVal::Integer(le64(s, pos + 1) as i64) }, pos + 9))
            } else {
                None
            }
        } else if t == 0x04 {
            match spec_parse_name(s, pos + 1) {
                None => None,
                Some((nm, p)) => Some((ConstantView { t, v: ConstVal::Str(nm) }, p)),
            }
        } else {
            None
        }
    }
}

/// Spec parser for `n` constant-pool entries in order.
pub open spec fn spec_parse_constants(s: Seq<u8>, pos: int, n: nat) -> Option<
    (Seq<ConstantView>, int),
>
    decreases n,
{
    if n == 0 {
        Some((Seq::empty(), pos))
    } else {
        match spec_parse_constant(s, pos) {
            None => None,
            Some((c, p1)) => match spec_parse_constants(s, p1, (n - 1) as nat) {
                None => None,
                Some((rest, p2)) => Some((seq![c] + rest, p2)),
            },
        }
    }
}

/// Spec parser for `n` local-variable debug records in order.
pub open spec fn spec_parse_locvars(s: Seq<u8>, pos: int, n: nat) -> Option<(Seq<LocVarView>, int)>
    decreases n,
{
    if n == 0 {
        Some((Seq::empty(), pos))
    } else {
        match spec_parse_name(s, pos) {
            None => None,
            Some((nm, p1)) => {
                if p1 + 8 > s.len() {
                    None
                } else {
                    let lv = LocVarView {
                        name: nm,
                        start_pc: le32(s, p1) as u32,
                        end_pc: le32(s, p1 + 4) as u32,
                    };
                    match spec_parse_locvars(s, p1 + 8, (n - 1) as nat) {
                        None => None,
                        Some((rest, p2)) => Some((seq![lv] + rest, p2)),
                    }
                }
            },
        }
    }
}

/// Spec parser for `n` upvalue names in order.
pub open spec fn spec_parse_names(s: Seq<u8>, pos: int, n: nat) -> Option<(Seq<Seq<u8>>, int)>
    decreases n,
{
    if n == 0 {
        Some((Seq::empty(), pos))
    } else {
        match spec_parse_name(s, pos) {
            None => None,
            Some((nm, p1)) => match spec_parse_names(s, p1, (n - 1) as nat) {
                None => None,
                Some((rest, p2)) => Some((seq![nm] + rest, p2)),
            },
        }
    }
}

/// Spec parser for one prototype record.  The field order is fixed by the
/// chunk format: source name, line range, three layout bytes, then the
/// length-prefixed arrays of instructions, constants, upvalue descriptors,
/// nested prototypes, line numbers, local-variable records and upvalue names.
pub open spec fn spec_parse_proto(s: Seq<u8>, pos: int) -> Option<(ProtoView, int)>
    decreases s.len() - pos, 0int, 1int,
{
    match spec_parse_source(s, pos) {
        None => None,
        Some((source, p1)) => if p1 + 11 > s.len() {
            None
        } else {
            let p2 = p1 + 11;
            if p2 + 4 > s.len() {
                None
            } else {
                let n_code = le32(s, p2);
                let p3 = p2 + 4;
                if p3 + 4 * n_code > s.len() {
                    None
                } else {
                    let p4 = p3 + 4 * n_code;
                    if p4 + 4 > s.len() {
                        None
                    } else {
                        match spec_parse_constants(s, p4 + 4, le32(s, p4) as nat) {
                            None => None,
                            Some((constants, p5)) => if p5 + 4 > s.len() {
                                None
                            } else {
                                let n_up = le32(s, p5);
                                let p6 = p5 + 4;
                                if p6 + 2 * n_up > s.len() {
                                    None
                                } else {
                                    let p7 = p6 + 2 * n_up;
                                    if p7 + 4 > s.len() {
                                        None
                                    } else {
                                        let p8 = p7 + 4;
                                        if !(pos < p8) {
                                            None
                                        } else {
                                            spec_parse_proto_tail(s, pos, source, constants, p1, p6, p8)
                                        }
                                    }
                                }
                            },
                        }
                    }
                }
            }
        },
    }
}

/// Continuation of `spec_parse_proto` from the nested-prototype array on;
/// split out only to keep each function readable.  `p1` is the position of
/// the line-range fields, `p6` the position of the upvalue descriptors, and
/// `p8` the position of the nested-prototype count's content.
pub open spec fn spec_parse_proto_tail(
    s: Seq<u8>,
    pos: int,
    source: Option<Seq<u8>>,
    constants: Seq<ConstantView>,
    p1: int,
    p6: int,
    p8: int,
) -> Option<(ProtoView, int)>
    decreases s.len() - pos, 0int, 0int,
    when pos < p8 <= s.len()
{
    let n_code = le32(s, p1 + 11);
    let n_up = le32(s, p6 - 4);
    match spec_parse_protos(s, p8, le32(s, p8 - 4) as nat) {
        None => None,
        Some((prototypes, p9)) => if p9 + 4 > s.len() {
            None
        } else {
            let n_line = le32(s, p9);
            let p10 = p9 + 4;
            if p10 + 4 * n_line > s.len() {
                None
            } else {
                let p11 = p10 + 4 * n_line;
                if p11 + 4 > s.len() {
                    None
                } else {
                    match spec_parse_locvars(s, p11 + 4, le32(s, p11) as nat) {
                        None => None,
                        Some((loc_vars, p12)) => if p12 + 4 > s.len() {
                            None
                        } else {
                            match spec_parse_names(s, p12 + 4, le32(s, p12) as nat) {
                                None => None,
                                Some((upvalue_names, p13)) => Some(
                                    (
                                        ProtoView {
                                            source,
                                            line_defined: le32(s, p1) as u32,
                                            last_line_defined: le32(s, p1 + 4) as u32,
                                            num_params: s[p1 + 8],
                                            is_vararg: s[p1 + 9],
                                            max_stack_size: s[p1 + 10],
                                            code: Seq::new(
                                                n_code as nat,
                                                |i: int| le32(s, p1 + 15 + 4 * i) as u32,
                                            ),
                                            constants,
                                            upvalues: Seq::new(
                                                n_up as nat,
                                                |i: int|
                                                    UpValue {
                                                        instack: s[p6 + 2 * i],
                                                        idx: s[p6 + 2 * i + 1],
                                                    },
                                            ),
                                            prototypes,
                                            line_info: Seq::new(
                                                n_line as nat,
                                                |i: int| le32(s, p10 + 4 * i) as u32,
                                            ),
                                            loc_vars,
                                            upvalue_names,
                                        },
                                        p13,
                                    ),
                                ),
                            }
                        },
                    }
                }
            }
        },
    }
}

/// Spec parser for `n` nested prototype records in order.
pub open spec fn spec_parse_protos(s: Seq<u8>, pos: int, n: nat) -> Option<(Seq<ProtoView>, int)>
    decreases s.len() - pos, 1int, n,
{
    if n == 0 {
        Some((Seq::empty(), pos))
    } else {
        match spec_parse_proto(s, pos) {
            None => None,
            Some((pv, p1)) => {
                if !(pos < p1 && p1 <= s.len()) {
                    None
                } else {
                    match spec_parse_protos(s, p1, (n - 1) as nat) {
                        None => None,
                        Some((rest, p2)) => Some((seq![pv] + rest, p2)),
                    }
                }
            },
        }
    }
}

} // verus!

verus! {

/// Model of an optional source name.
pub open spec fn view_source(o: Option<Vec<u8>>) -> Option<Seq<u8>> {
    match o {
        Some(v) => Some(v@),
        None => None,
    }
}

/// Models of a constant-pool slice.
pub open spec fn view_constants(s: Seq<Constant>) -> Seq<ConstantView> {
    Seq::new(s.len(), |i: int| s[i]@)
}

/// Models of a local-variable record slice.
pub open spec fn view_locvars(s: Seq<LocVar>) -> Seq<LocVarView> {
    Seq::new(s.len(), |i: int| s[i]@)
}

/// Models of an upvalue-name slice.
pub open spec fn view_names(s: Seq<UpValueName>) -> Seq<Seq<u8>> {
    Seq::new(s.len(), |i: int| s[i]@)
}

/// Parses an optional length-prefixed source name.
fn parse_source(b: &[u8], pos: usize) -> (r: Result<(Option<Vec<u8>>, usize), LuaError>)
    ensures
        match r {
            Ok((v, p)) => spec_parse_source(b@, pos as int) == Some((view_source(v), p as int))
                && pos < p <= b@.len(),
            Err(e) => spec_parse_source(b@, pos as int) is None && e == LuaError::FormatError,
        },
{
    let (l, p) = match read_u8(b, pos) {
        Ok(v) => v,
        Err(e) => { return Err(e); },
    };
    if l == 0 {
        Ok((None, p))
    } else {
        match read_bytes(b, p, (l - 1) as usize) {
            Ok((content, p2)) => Ok((Some(content), p2)),
            Err(e) => Err(e),
        }
    }
}

/// Parses a required length-prefixed name.
fn parse_name(b: &[u8], pos: usize) -> (r: Result<(Vec<u8>, usize), LuaError>)
    ensures
        match r {
            Ok((v, p)) => spec_parse_name(b@, pos as int) == Some((v@, p as int)) && pos < p
                <= b@.len(),
            Err(e) => spec_parse_name(b@, pos as int) is None && e == LuaError::FormatError,
        },
{
    let (l, p) = match read_u8(b, pos) {
        Ok(v) => v,
        Err(e) => { return Err(e); },
    };
    if l == 0 {
        Err(LuaError::FormatError)
    } else {
        match read_bytes(b, p, (l - 1) as usize) {
            Ok((content, p2)) => Ok((content, p2)),
            Err(e) => Err(e),
        }
    }
}

impl Constant {
    /// Parses one constant-pool entry: a selector byte, then the value in
    /// the representation the selector dictates.
    pub fn parse(b: &[u8], pos: usize) -> (r: Result<(Constant, usize), LuaError>)
        ensures
            match r {
                Ok((c, p)) => spec_parse_constant(b@, pos as int) == Some((c@, p as int)) && pos < p
                    <= b@.len(),
                Err(e) => spec_parse_constant(b@, pos as int) is None && e == LuaError::FormatError,
            },
    {
        let (t, p) = match read_u8(b, pos) {
            Ok(v) => v,
            Err(e) => { return Err(e); },
        };
        if t == 0x00 {
            Ok((Constant { const_type: ConstantType(t), const_value: ConstantValue::Nil }, p))
        } else if t == 0x01 {
            match read_u8(b, p) {
                Ok((v, p2)) => Ok(
                    (
                        Constant { const_type: ConstantType(t), const_value: ConstantValue::Boolean(v) },
                        p2,
                    ),
                ),
                Err(e) => Err(e),
            }
        } else if t == 0x03 {
            match read_u64(b, p) {
                Ok((v, p2)) => Ok(
                    (
                        Constant { const_type: ConstantType(t), const_value: ConstantValue::Number(v) },
                        p2,
                    ),
                ),
                Err(e) => Err(e),
            }
        } else if t == 0x13 {
            match read_u64(b, p) {
                Ok((v, p2)) => Ok(
                    (
                        Constant {
                            const_type: ConstantType(t),
                            const_value: ConstantValue::Integer(#[verifier::truncate] (v as i64)),
                        },
                        p2,
                    ),
                ),
                Err(e) => Err(e),
            }
        } else if t == 0x04 {
            match parse_name(b, p) {
                Ok((nm, p2)) => Ok(
                    (
                        Constant {
                            const_type: ConstantType(t),
                            const_value: ConstantValue::ShortStr(ShortString { value: nm }),
                        },
                        p2,
                    ),
                ),
                Err(e) => Err(e),
            }
        } else {
            Err(LuaError::FormatError)
        }
    }
}

/// Parses `n` constant-pool entries in order.
fn parse_constants(b: &[u8], pos: usize, n: u32) -> (r: Result<(Vec<Constant>, usize), LuaError>)
    requires
        pos <= b@.len(),
    ensures
        match r {
            Ok((v, p)) => spec_parse_constants(b@, pos as int, n as nat) == Some(
                (view_constants(v@), p as int),
            ) && v@.len() == n && pos <= p <= b@.len(),
            Err(e) => spec_parse_constants(b@, pos as int, n as nat) is None && e
                == LuaError::FormatError,
        },
    decreases n,
{
    if n == 0 {
        let v: Vec<Constant> = Vec::new();
        proof {
            assert(view_constants(v@) =~= Seq::<ConstantView>::empty());
        }
        return Ok((v, pos));
    }
    let (c, p1) = match Constant::parse(b, pos) {
        Ok(v) => v,
        Err(e) => { return Err(e); },
    };
    let (mut rest, p2) = match parse_constants(b, p1, n - 1) {
        Ok(v) => v,
        Err(e) => { return Err(e); },
    };
    let ghost rest0 = rest@;
    let mut v: Vec<Constant> = Vec::new();
    v.push(c);
    v.append(&mut rest);
    proof {
        assert(view_constants(v@) =~= seq![c@] + view_constants(rest0));
    }
    Ok((v, p2))
}

/// Parses `n` local-variable debug records in order.
fn parse_locvars(b: &[u8], pos: usize, n: u32) -> (r: Result<(Vec<LocVar>, usize), LuaError>)
    requires
        pos <= b@.len(),
    ensures
        match r {
            Ok((v, p)) => spec_parse_locvars(b@, pos as int, n as nat) == Some(
                (view_locvars(v@), p as int),
            ) && v@.len() == n && pos <= p <= b@.len(),
            Err(e) => spec_parse_locvars(b@, pos as int, n as nat) is None && e
                == LuaError::FormatError,
        },
    decreases n,
{
    if n == 0 {
        let v: Vec<LocVar> = Vec::new();
        proof {
            assert(view_locvars(v@) =~= Seq::<LocVarView>::empty());
        }
        return Ok((v, pos));
    }
    let (nm, p1) = match parse_name(b, pos) {
        Ok(v) => v,
        Err(e) => { return Err(e); },
    };
    let (start_pc, p2) = match read_u32(b, p1) {
        Ok(v) => v,
        Err(e) => { return Err(e); },
    };
    let (end_pc, p3) = match read_u32(b, p2) {
        Ok(v) => v,
        Err(e) => { return Err(e); },
    };
    let lv = LocVar { var_name: VariableName { value: nm }, start_pc, end_pc };
    let (mut rest, p4) = match parse_locvars(b, p3, n - 1) {
        Ok(v) => v,
        Err(e) => { return Err(e); },
    };
    let ghost rest0 = rest@;
    let mut v: Vec<LocVar> = Vec::new();
    v.push(lv);
    v.append(&mut rest);
    proof {
        assert(view_locvars(v@) =~= seq![lv@] + view_locvars(rest0));
    }
    Ok((v, p4))
}

/// Parses `n` upvalue names in order.
fn parse_names(b: &[u8], pos: usize, n: u32) -> (r: Result<(Vec<UpValueName>, usize), LuaError>)
    requires
        pos <= b@.len(),
    ensures
        match r {
            Ok((v, p)) => spec_parse_names(b@, pos as int, n as nat) == Some(
                (view_names(v@), p as int),
            ) && v@.len() == n && pos <= p <= b@.len(),
            Err(e) => spec_parse_names(b@, pos as int, n as nat) is None && e
                == LuaError::FormatError,
        },
    decreases n,
{
    if n == 0 {
        let v: Vec<UpValueName> = Vec::new();
        proof {
            assert(view_names(v@) =~= Seq::<Seq<u8>>::empty());
        }
        return Ok((v, pos));
    }
    let (nm, p1) = match parse_name(b, pos) {
        Ok(v) => v,
        Err(e) => { return Err(e); },
    };
    let un = UpValueName { value: nm };
    let (mut rest, p2) = match parse_names(b, p1, n - 1) {
        Ok(v) => v,
        Err(e) => { return Err(e); },
    };
    let ghost rest0 = rest@;
    let mut v: Vec<UpValueName> = Vec::new();
    v.push(un);
    v.append(&mut rest);
    proof {
        assert(view_names(v@) =~= seq![un@] + view_names(rest0));
    }
    Ok((v, p2))
}

} // verus!

verus! {

impl Prototype {
    /// Parses one prototype record, with its nested prototypes parsed
    /// recursively, returning exactly what the spec parser describes.
    #[verifier::loop_isolation(false)]
    pub fn parse(b: &[u8], pos: usize) -> (r: Result<(Prototype, usize), LuaError>)
        ensures
            match r {
                Ok((p, np)) => spec_parse_proto(b@, pos as int) == Some((p@, np as int)) && pos < np
                    <= b@.len(),
                Err(e) => spec_parse_proto(b@, pos as int) is None && e == LuaError::FormatError,
            },
        decreases b@.len() - pos, 0int, 1int,
    {
        let (source, p1) = match parse_source(b, pos) {
            Ok(v) => v,
            Err(e) => { return Err(e); },
        };
        let (line_defined, _) = match read_u32(b, p1) {
            Ok(v) => v,
            Err(e) => { return Err(e); },
        };
        let (last_line_defined, _) = match read_u32(b, p1 + 4) {
            Ok(v) => v,
            Err(e) => { return Err(e); },
        };
        let (num_params, _) = match read_u8(b, p1 + 8) {
            Ok(v) => v,
            Err(e) => { return Err(e); },
        };
        let (is_vararg, _) = match read_u8(b, p1 + 9) {
            Ok(v) => v,
            Err(e) => { return Err(e); },
        };
        let (max_stack_size, p2) = match read_u8(b, p1 + 10) {
            Ok(v) => v,
            Err(e) => { return Err(e); },
        };
        let (n_code, p3) = match read_u32(b, p2) {
            Ok(v) => v,
            Err(e) => { return Err(e); },
        };
        let mut code: Vec<u32> = Vec::new();
        let mut pc: usize = p3;
        let mut i: u32 = 0;
        while i < n_code
            invariant
                i <= n_code,
                pc == p3 + 4 * i,
                pc <= b@.len(),
                code@ == Seq::new(i as nat, |j: int| le32(b@, p3 + 4 * j) as u32),
            decreases n_code - i,
        {
            match read_u32(b, pc) {
                Ok((w, pnext)) => {
                    code.push(w);
                    pc = pnext;
                    i = i + 1;
                    proof {
                        assert(code@ =~= Seq::new(i as nat, |j: int| le32(b@, p3 + 4 * j) as u32));
                    }
                },
                Err(_) => {
                    proof {
                        assert(p3 + 4 * n_code > b@.len());
                    }
                    return Err(LuaError::FormatError);
                },
            }
        }
        let (n_const, p4c) = match read_u32(b, pc) {
            Ok(v) => v,
            Err(e) => { return Err(e); },
        };
        let (constants, p5) = match parse_constants(b, p4c, n_const) {
            Ok(v) => v,
            Err(e) => { return Err(e); },
        };
        let (n_up, p6) = match read_u32(b, p5) {
            Ok(v) => v,
            Err(e) => { return Err(e); },
        };
        let mut upvalues: Vec<UpValue> = Vec::new();
        let mut pu: usize = p6;
        let mut j: u32 = 0;
        while j < n_up
            invariant
                j <= n_up,
                pu == p6 + 2 * j,
                pu <= b@.len(),
                upvalues@ == Seq::new(
                    j as nat,
                    |k: int| UpValue { instack: b@[p6 + 2 * k], idx: b@[p6 + 2 * k + 1] },
                ),
            decreases n_up - j,
        {
            let (instack, pua) = match read_u8(b, pu) {
                Ok(v) => v,
                Err(_) => {
                    proof {
                        assert(p6 + 2 * n_up > b@.len());
                    }
                    return Err(LuaError::FormatError);
                },
            };
            let (idx, pu2) = match read_u8(b, pua) {
                Ok(v) => v,
                Err(_) => {
                    proof {
                        assert(p6 + 2 * n_up > b@.len());
                    }
                    return Err(LuaError::FormatError);
                },
            };
            upvalues.push(UpValue { instack, idx });
            pu = pu2;
            j = j + 1;
            proof {
                assert(upvalues@ =~= Seq::new(
                    j as nat,
                    |k: int| UpValue { instack: b@[p6 + 2 * k], idx: b@[p6 + 2 * k + 1] },
                ));
            }
        }
        let (n_proto, p8) = match read_u32(b, pu) {
            Ok(v) => v,
            Err(e) => { return Err(e); },
        };
        let (prototypes, p9) = match parse_protos(b, p8, n_proto) {
            Ok(v) => v,
            Err(e) => { return Err(e); },
        };
        let (n_line, p10) = match read_u32(b, p9) {
            Ok(v) => v,
            Err(e) => { return Err(e); },
        };
        let mut line_info: Vec<u32> = Vec::new();
        let mut pl: usize = p10;
        let mut k: u32 = 0;
        while k < n_line
            invariant
                k <= n_line,
                pl == p10 + 4 * k,
                pl <= b@.len(),
                line_info@ == Seq::new(k as nat, |j2: int| le32(b@, p10 + 4 * j2) as u32),
            decreases n_line - k,
        {
            match read_u32(b, pl) {
                Ok((w, pnext)) => {
                    line_info.push(w);
                    pl = pnext;
                    k = k + 1;
                    proof {
                        assert(line_info@ =~= Seq::new(
                            k as nat,
                            |j2: int| le32(b@, p10 + 4 * j2) as u32,
                        ));
                    }
                },
                Err(_) => {
                    proof {
                        assert(p10 + 4 * n_line > b@.len());
                    }
                    return Err(LuaError::FormatError);
                },
            }
        }
        let (n_loc, p11c) = match read_u32(b, pl) {
            Ok(v) => v,
            Err(e) => { return Err(e); },
        };
        let (loc_vars, p12) = match parse_locvars(b, p11c, n_loc) {
            Ok(v) => v,
            Err(e) => { return Err(e); },
        };
        let (n_names, p12c) = match read_u32(b, p12) {
            Ok(v) => v,
            Err(e) => { return Err(e); },
        };
        let (upvalue_names, p13) = match parse_names(b, p12c, n_names) {
            Ok(v) => v,
            Err(e) => { return Err(e); },
        };
        let proto = Prototype {
            source,
            line_defined,
            last_line_defined,
            num_params,
            is_vararg,
            max_stack_size,
            code,
            constants,
            upvalues,
            prototypes,
            line_info,
            loc_vars,
            upvalue_names,
        };
        proof {
            assert(proto@.code =~= Seq::new(n_code as nat, |i2: int| le32(b@, p1 + 15 + 4 * i2) as u32));
            assert(proto@.upvalues =~= Seq::new(
                n_up as nat,
                |k2: int| UpValue { instack: b@[p6 + 2 * k2], idx: b@[p6 + 2 * k2 + 1] },
            ));
            assert(proto@.line_info =~= Seq::new(n_line as nat, |j2: int| le32(b@, p10 + 4 * j2) as u32));
            assert(proto@.constants =~= view_constants(proto.constants@));
            assert(proto@.prototypes =~= view_protos(proto.prototypes@));
            assert(proto@.loc_vars =~= view_locvars(proto.loc_vars@));
            assert(proto@.upvalue_names =~= view_names(proto.upvalue_names@));
        }
        Ok((proto, p13))
    }
}

/// Parses `n` nested prototype records in order, each wrapped for shared
/// ownership.
fn parse_protos(b: &[u8], pos: usize, n: u32) -> (r: Result<(Vec<Rc<Prototype>>, usize), LuaError>)
    requires
        pos <= b@.len(),
    ensures
        match r {
            Ok((v, p)) => spec_parse_protos(b@, pos as int, n as nat) == Some(
                (view_protos(v@), p as int),
            ) && v@.len() == n && pos <= p <= b@.len(),
            Err(e) => spec_parse_protos(b@, pos as int, n as nat) is None && e
                == LuaError::FormatError,
        },
    decreases b@.len() - pos, 1int, n,
{
    if n == 0 {
        let v: Vec<Rc<Prototype>> = Vec::new();
        proof {
            assert(view_protos(v@) =~= Seq::<ProtoView>::empty());
        }
        return Ok((v, pos));
    }
    let (proto, p1) = match Prototype::parse(b, pos) {
        Ok(v) => v,
        Err(e) => { return Err(e); },
    };
    let ghost pv = proto@;
    let (mut rest, p2) = match parse_protos(b, p1, n - 1) {
        Ok(v) => v,
        Err(e) => { return Err(e); },
    };
    let ghost rest0 = rest@;
    let mut v: Vec<Rc<Prototype>> = Vec::new();
    v.push(Rc::new(proto));
    v.append(&mut rest);
    proof {
        assert(view_protos(v@) =~= seq![pv] + view_protos(rest0));
    }
    Ok((v, p2))
}

impl Chunk {
    /// Parses a whole chunk: the literal header, the top-level upvalue
    /// count, and the main prototype.
    pub fn parse(b: &[u8]) -> (r: Result<(Chunk, usize), LuaError>)
        ensures
            match r {
                Ok((c, p)) => {
                    &&& header_ok(b@)
                    &&& b@.len() >= 34
                    &&& c.size_upvalues == b@[33]
                    &&& spec_parse_proto(b@, 34) == Some((c.main@, p as int))
                    &&& c.header.version == 0x53
                    &&& c.header.format == 0
                    &&& c.header.signature@ == seq![0x1bu8, 0x4cu8, 0x75u8, 0x61u8]
                    &&& c.header.luac_data@ == seq![0x19u8, 0x93u8, 0x0du8, 0x0au8, 0x1au8, 0x0au8]
                    &&& c.header.luac_int == 0x5678
                    &&& c.header.luac_num_bits == LUAC_NUM_BITS
                    &&& 34 < p <= b@.len()
                },
                Err(e) => {
                    &&& !header_ok(b@) || b@.len() < 34 || spec_parse_proto(b@, 34) is None
                    &&& e == LuaError::FormatError
                },
            },
    {
        let (header, p) = match Header::parse(b) {
            Ok(v) => v,
            Err(e) => { return Err(e); },
        };
        let (size_upvalues, p1) = match read_u8(b, p) {
            Ok(v) => v,
            Err(e) => { return Err(e); },
        };
        let (main, p2) = match Prototype::parse(b, p1) {
            Ok(v) => v,
            Err(e) => { return Err(e); },
        };
        Ok((Chunk { header, size_upvalues, main }, p2))
    }
}

/// Corrupting any byte of the 6-byte literal tail, or truncating the buffer
/// inside the header, leaves `header_ok` false, so by the parsers' contracts
/// the chunk is rejected with a format error and never yields a prototype.
pub proof fn lemma_malformed_header_rejected(s: Seq<u8>, i: int)
    requires
        6 <= i < 12,
        s.len() >= 33 ==> s[i] != seq![0x19u8, 0x93u8, 0x0du8, 0x0au8, 0x1au8, 0x0au8][i - 6],
    ensures
        !header_ok(s),
{
}

} // verus!

verus! {

impl Prototype {
    /// The empty prototype: no name, no code, no constants, nothing nested.
    pub fn new() -> (r: Prototype)
        ensures
            r@.source is None,
            r@.line_defined == 0,
            r@.last_line_defined == 0,
            r@.num_params == 0,
            r@.is_vararg == 0,
            r@.max_stack_size == 0,
            r@.code.len() == 0,
            r@.constants.len() == 0,
            r@.upvalues.len() == 0,
            r@.prototypes.len() == 0,
            r@.line_info.len() == 0,
            r@.loc_vars.len() == 0,
            r@.upvalue_names.len() == 0,
    {
        Prototype {
            source: None,
            line_defined: 0,
            last_line_defined: 0,
            num_params: 0,
            is_vararg: 0,
            max_stack_size: 0,
            code: Vec::new(),
            constants: Vec::new(),
            upvalues: Vec::new(),
            prototypes: Vec::new(),
            line_info: Vec::new(),
            loc_vars: Vec::new(),
            upvalue_names: Vec::new(),
        }
    }
}

} // verus!
