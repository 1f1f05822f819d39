//! End-to-end tests: hand-assembled binary chunks parsed and executed
//! through the public interface.

use llua::LuaError;
use llua::chunk::Chunk;
use llua::chunk::Constant;
use llua::chunk::ConstantValue;
use llua::chunk::Header;
use llua::chunk::Prototype;
use llua::chunk::ShortString;
use llua::chunk::UpValue;
use llua::instruction::Instruction;
use llua::opcodes::OP_ADD;
use llua::opcodes::OP_CALL;
use llua::opcodes::OP_CLOSURE;
use llua::opcodes::OP_GETTABLE;
use llua::opcodes::OP_GETTABUP;
use llua::opcodes::OP_GETUPVAL;
use llua::opcodes::OP_LOADK;
use llua::opcodes::OP_MOVE;
use llua::opcodes::OP_NEWTABLE;
use llua::opcodes::OP_RETURN;
use llua::opcodes::OP_SETLIST;
use llua::opcodes::OP_SETTABLE;
use llua::opcodes::OP_UNM;
use llua::state::LuaState;
use llua::value::LuaValue;
use llua::vm::RunResult;
use llua::vm::StepEvent;
use llua::vm::lua_vm_execute;
use llua::opcodes::opcodes;

const FUEL: usize = 100_000;

const RK: u32 = 0x100;

fn iabc(op: u8, a: u32, b: u32, c: u32) -> u32 {
    op as u32 | (a << 6) | (c << 14) | (b << 23)
}

fn iabx(op: u8, a: u32, bx: u32) -> u32 {
    op as u32 | (a << 6) | (bx << 14)
}

fn w32(out: &mut Vec<u8>, v: u32) {
    out.extend_from_slice(&v.to_le_bytes());
}

fn w64(out: &mut Vec<u8>, v: u64) {
    out.extend_from_slice(&v.to_le_bytes());
}

fn lstr(out: &mut Vec<u8>, s: &[u8]) {
    out.push((s.len() + 1) as u8);
    out.extend_from_slice(s);
}

fn header_bytes() -> Vec<u8> {
    let mut o: Vec<u8> = vec![0x1b, 0x4c, 0x75, 0x61, 0x53, 0x00];
    o.extend_from_slice(&[0x19, 0x93, 0x0d, 0x0a, 0x1a, 0x0a]);
    o.extend_from_slice(&[4, 8, 4, 8, 8]);
    w64(&mut o, 0x5678);
    o.extend_from_slice(&370.5f64.to_le_bytes());
    o
}

enum Konst {
    I(i64),
    S(&'static [u8]),
    N(f64),
    B(u8),
    Empty,
}

fn proto_bytes(
    source: &[u8],
    num_params: u8,
    is_vararg: u8,
    max_stack: u8,
    code: &[u32],
    consts: &[Konst],
    upvals: &[(u8, u8)],
    subs: &[Vec<u8>],
    names: &[&[u8]],
) -> Vec<u8> {
    let mut o: Vec<u8> = Vec::new();
    if source.is_empty() {
        o.push(0);
    } else {
        lstr(&mut o, source);
    }
    w32(&mut o, 0);
    w32(&mut o, 0);
    o.push(num_params);
    o.push(is_vararg);
    o.push(max_stack);
    w32(&mut o, code.len() as u32);
    for w in code {
        w32(&mut o, *w);
    }
    w32(&mut o, consts.len() as u32);
    for k in consts {
        match k {
            Konst::I(v) => {
                o.push(0x13);
                w64(&mut o, *v as u64);
            },
            Konst::S(s) => {
                o.push(0x04);
                lstr(&mut o, s);
            },
            Konst::N(f) => {
                o.push(0x03);
                w64(&mut o, f.to_bits());
            },
            Konst::B(b) => {
                o.push(0x01);
                o.push(*b);
            },
            Konst::Empty => {
                o.push(0x00);
            },
        }
    }
    w32(&mut o, upvals.len() as u32);
    for (a, b) in upvals {
        o.push(*a);
        o.push(*b);
    }
    w32(&mut o, subs.len() as u32);
    for s in subs {
        o.extend_from_slice(s);
    }
    w32(&mut o, code.len() as u32);
    for _ in code {
        w32(&mut o, 1);
    }
    w32(&mut o, 0);
    w32(&mut o, names.len() as u32);
    for n in names {
        lstr(&mut o, n);
    }
    o
}

fn chunk_bytes(size_upvalues: u8, main: &[u8]) -> Vec<u8> {
    let mut o = header_bytes();
    o.push(size_upvalues);
    o.extend_from_slice(main);
    o
}

fn parse_main(bytes: &[u8]) -> Prototype {
    let (chunk, _) = Chunk::parse(bytes).expect("chunk must parse");
    chunk.main
}

/// Sets up a state with the parsed main prototype as a plain closure (no
/// upvalue capture) and a prepared root call frame, ready for stepping.
fn prepare(bytes: &[u8]) -> LuaState {
    let proto = parse_main(bytes);
    let mut l = LuaState::new();
    let closure = l.new_lua_closure(proto);
    l.push(closure);
    match l.internal_call(0, 0) {
        Ok(RunResult::OutOfFuel) => {},
        other => panic!("unexpected setup result: {:?}", other),
    }
    l
}

fn step(l: &mut LuaState) -> StepEvent {
    let inst = l.fetch().expect("code exhausted");
    l.execute(inst).expect("instruction failed")
}

#[test]
fn parse_magic() {
    const MAGIC: &[u8] = &[0x65, 0x51, 0x48, 0x54, 0x52];
    let expect: Vec<u8> = vec![0x1b, 0x4c, 0x75, 0x61];
    let mut data = header_bytes();
    data.extend_from_slice(MAGIC);
    let parsed = Header::parse(&data);
    assert!(parsed.is_ok());
    let (head, consumed) = parsed.unwrap();
    assert_eq!(consumed, 33);
    assert_eq!(head.signature, expect);
}

#[test]
fn parse_hello() {
    let sub = proto_bytes(b"", 0, 0, 2, &[iabc(OP_RETURN, 0, 1, 0)], &[], &[], &[], &[]);
    let main = proto_bytes(
        b"=stdin",
        0,
        1,
        2,
        &[
            iabc(OP_GETTABUP, 0, 0, RK),
            iabx(OP_LOADK, 1, 0),
            iabc(OP_RETURN, 0, 1, 0),
        ],
        &[Konst::S(b"foo")],
        &[(1, 0)],
        &[sub],
        &[b"_ENV"],
    );
    let data = chunk_bytes(1, &main);
    let parse_result = Chunk::parse(&data);
    assert!(parse_result.is_ok());
    let chunk: Chunk = parse_result.unwrap().0;
    let head: Header = chunk.header;
    assert_eq!(head.signature.as_slice(), &[0x1b, 0x4c, 0x75, 0x61]);
    assert_eq!(head.version, 83);
    assert_eq!(head.format, 0);
    assert_eq!(head.luac_data.as_slice(), &[0x19, 0x93, 0x0d, 0x0a, 0x1a, 0x0a]);
    assert_eq!(head.c_int_size, 4);
    assert_eq!(head.c_size_t_size, 8);
    assert_eq!(head.instruction_size, 4);
    assert_eq!(head.lua_integer_size, 8);
    assert_eq!(head.lua_number_size, 8);
    assert_eq!(head.luac_int, 0x5678);
    assert_eq!(head.luac_num_bits, 370.5f64.to_bits());

    assert_eq!(chunk.size_upvalues, 1);
    let main = chunk.main;
    assert_eq!(main.source.clone().unwrap().len(), 6);
    assert_eq!(main.source.unwrap(), b"=stdin".to_vec());
    assert_eq!(main.line_defined, 0);
    assert_eq!(main.last_line_defined, 0);
    assert_eq!(main.num_params, 0);
    assert_eq!(main.is_vararg, 1);
    assert_eq!(main.max_stack_size, 2);
    assert_eq!(main.code.len(), 3);
    assert_eq!(main.constants.len(), 1);
    let lua_const = main.constants[0].clone();
    assert_eq!(lua_const.const_type.0, 4);
    assert_eq!(
        lua_const.const_value,
        ConstantValue::ShortStr(ShortString { value: b"foo".to_vec() })
    );
    assert_eq!(main.upvalues.len(), 1);
    assert_eq!(main.upvalues[0], UpValue { instack: 1, idx: 0 });
    assert_eq!(main.prototypes.len(), 1);
    assert_eq!(main.line_info.len(), 3);
    assert_eq!(main.loc_vars.len(), 0);
    assert_eq!(main.upvalue_names.len(), 1);
    assert_eq!(main.upvalue_names[0].value, b"_ENV".to_vec());
}

fn sample_chunk() -> Vec<u8> {
    let main = proto_bytes(
        b"",
        0,
        1,
        1,
        &[
            iabx(OP_LOADK, 0, 0),
            iabc(OP_ADD, 0, 0, RK + 1),
            iabc(OP_ADD, 0, 0, RK + 2),
            iabc(OP_RETURN, 0, 2, 0),
        ],
        &[Konst::I(0), Konst::I(1), Konst::I(2)],
        &[],
        &[],
        &[],
    );
    chunk_bytes(0, &main)
}

#[test]
fn execute_test() {
    let data = sample_chunk();
    let mut l = prepare(&data);
    let expect = vec![
        LuaValue::Integer(0),
        LuaValue::Integer(1),
        LuaValue::Integer(3),
    ];
    let mut expect_index = 0;
    while let Some(inst) = l.fetch() {
        l.execute(inst).expect("instruction failed");
        if expect_index < expect.len() {
            assert_eq!(l.stack.stack[2], expect[expect_index], "expect index {}", expect_index);
        } else {
            // RETURN 0 2 pops the frame and moves the result down into
            // the slot that held the closure
            assert_eq!(l.stack.stack.len(), 2);
            assert_eq!(l.stack.stack[1], LuaValue::Integer(3));
        }
        expect_index += 1;
    }
    assert_eq!(expect_index, expect.len() + 1);
}

#[test]
fn local_var_test() {
    let main = proto_bytes(
        b"",
        0,
        1,
        4,
        &[
            iabx(OP_LOADK, 0, 0),
            iabx(OP_LOADK, 1, 1),
            iabx(OP_LOADK, 2, 2),
            iabc(OP_ADD, 3, 0, 1),
            iabc(OP_ADD, 3, 3, 2),
            iabc(OP_RETURN, 3, 2, 0),
        ],
        &[Konst::I(1), Konst::I(2), Konst::I(3)],
        &[],
        &[],
        &[],
    );
    let data = chunk_bytes(0, &main);
    let mut l = prepare(&data);
    let expect: Vec<(usize, LuaValue)> = vec![
        (1, LuaValue::Integer(1)),
        (2, LuaValue::Integer(2)),
        (3, LuaValue::Integer(3)),
        (4, LuaValue::Integer(3)),
        (4, LuaValue::Integer(6)),
    ];
    let mut expect_index = 0;
    while let Some(inst) = l.fetch() {
        l.execute(inst).expect("instruction failed");
        if expect_index < expect.len() {
            let (i, v) = expect[expect_index].clone();
            assert_eq!(
                l.stack.stack[i + 1],
                v,
                "register {} with expect index {}",
                i,
                expect_index
            );
        } else {
            // RETURN 3 2 pops the frame; the final result 6 moves down
            // into the slot that held the closure
            assert_eq!(l.stack.stack.len(), 2);
            assert_eq!(l.stack.stack[1], LuaValue::Integer(6));
        }
        expect_index += 1;
    }
    assert_eq!(expect_index, expect.len() + 1);
}

fn table_chunk() -> Vec<u8> {
    let main = proto_bytes(
        b"",
        0,
        1,
        4,
        &[
            iabc(OP_NEWTABLE, 0, 3, 0),
            iabx(OP_LOADK, 1, 0),
            iabx(OP_LOADK, 2, 1),
            iabx(OP_LOADK, 3, 2),
            iabc(OP_SETLIST, 0, 3, 1),
            iabc(OP_SETTABLE, 0, RK + 3, RK + 4),
            iabc(OP_GETTABLE, 1, 0, RK + 3),
            iabc(OP_GETTABLE, 2, 0, RK + 5),
            iabc(OP_RETURN, 0, 1, 0),
        ],
        &[
            Konst::I(88),
            Konst::I(11),
            Konst::I(3),
            Konst::S(b"sweethui"),
            Konst::I(881103),
            Konst::I(1),
        ],
        &[],
        &[],
        &[],
    );
    chunk_bytes(0, &main)
}

fn table_handle(v: &LuaValue) -> usize {
    match v {
        LuaValue::Table(h) => *h,
        other => panic!("expected a table, got {:?}", other),
    }
}

#[test]
fn table_test() {
    let data = table_chunk();
    let mut l = prepare(&data);
    // NEWTABLE 0 3 0
    step(&mut l);
    let h = table_handle(&l.stack.stack[2]);
    assert_eq!(l.tables[h].len(), 3);
    // LOADK 1 ; 88
    step(&mut l);
    assert_eq!(l.stack.stack[3], LuaValue::Integer(88));
    // LOADK 2 ; 11
    step(&mut l);
    assert_eq!(l.stack.stack[4], LuaValue::Integer(11));
    // LOADK 3 ; 3
    step(&mut l);
    assert_eq!(l.stack.stack[5], LuaValue::Integer(3));
    // SETLIST 0 3 1
    step(&mut l);
    assert_eq!(l.tables[h].len(), 3);
    assert_eq!(l.tables[h].get_array(1), LuaValue::Integer(88));
    assert_eq!(l.tables[h].get_array(2), LuaValue::Integer(11));
    assert_eq!(l.tables[h].get_array(3), LuaValue::Integer(3));
    // SETTABLE 0 "sweethui" 881103
    step(&mut l);
    assert_eq!(
        l.tables[h].get_hash(&LuaValue::Str(b"sweethui".to_vec())),
        LuaValue::Integer(881103)
    );
    // GETTABLE 1 0 "sweethui"
    step(&mut l);
    assert_eq!(l.stack.stack[3], LuaValue::Integer(881103));
    // GETTABLE 2 0 ; 1
    step(&mut l);
    assert_eq!(l.stack.stack[4], LuaValue::Integer(88));
    // RETURN 0 1 returns nothing: the frame pops and the window is gone,
    // but the table survives in the arena with its contents intact
    step(&mut l);
    assert_eq!(l.stack.stack.len(), 1);
    assert_eq!(l.tables[h].get_array(1), LuaValue::Integer(88));
    assert_eq!(
        l.tables[h].get_hash(&LuaValue::Str(b"sweethui".to_vec())),
        LuaValue::Integer(881103)
    );
    assert!(l.fetch().is_none());
}

fn is_closure(v: &LuaValue) -> bool {
    matches!(v, LuaValue::Closure(_))
}

#[test]
fn lua_vm_function_test() {
    let inner = proto_bytes(
        b"",
        2,
        0,
        3,
        &[iabc(OP_ADD, 2, 0, 1), iabc(OP_RETURN, 2, 2, 0)],
        &[],
        &[],
        &[],
        &[],
    );
    let main = proto_bytes(
        b"",
        0,
        1,
        4,
        &[
            iabx(OP_CLOSURE, 0, 0),
            iabc(OP_MOVE, 1, 0, 0),
            iabx(OP_LOADK, 2, 0),
            iabx(OP_LOADK, 3, 1),
            iabc(OP_CALL, 1, 3, 2),
            iabc(OP_RETURN, 0, 1, 0),
        ],
        &[Konst::I(11), Konst::I(3)],
        &[],
        &[inner],
        &[],
    );
    let data = chunk_bytes(0, &main);
    let mut l = prepare(&data);
    // CLOSURE 0 0
    step(&mut l);
    assert!(is_closure(&l.stack.stack[2]), "expect function");
    // MOVE 1 0
    step(&mut l);
    assert!(is_closure(&l.stack.stack[3]), "expect function");
    // LOADK 2 ; 11
    step(&mut l);
    assert_eq!(l.stack.stack[4], LuaValue::Integer(11));
    // LOADK 3 ; 3
    step(&mut l);
    assert_eq!(l.stack.stack[5], LuaValue::Integer(3));
    // CALL 1 3 2
    step(&mut l);
    assert!(is_closure(&l.stack.stack[3]), "expect function");
    assert_eq!(l.stack.stack[4], LuaValue::Integer(11));
    assert_eq!(l.stack.stack[5], LuaValue::Integer(3));
    // ADD 2 0 1 (inside the callee)
    step(&mut l);
    assert_eq!(l.stack.stack[6], LuaValue::Integer(14));
    // RETURN 2 2 (inside the callee): 14 lands in the caller's register 1
    step(&mut l);
    assert_eq!(l.stack.stack[3], LuaValue::Integer(14));
    // RETURN 0 1 returns nothing: the outer frame pops and its window is
    // trimmed away
    step(&mut l);
    assert_eq!(l.stack.stack.len(), 1);
    assert!(l.fetch().is_none());
}

#[test]
fn upvalue_test() {
    let inner = proto_bytes(
        b"",
        0,
        0,
        4,
        &[
            iabc(OP_GETUPVAL, 0, 0, 0),
            iabc(OP_GETUPVAL, 1, 1, 0),
            iabc(OP_MOVE, 2, 0, 0),
            iabc(OP_MOVE, 3, 1, 0),
            iabc(OP_RETURN, 2, 3, 0),
        ],
        &[],
        &[(1, 0), (1, 1)],
        &[],
        &[],
    );
    let main = proto_bytes(
        b"",
        0,
        1,
        5,
        &[
            iabx(OP_LOADK, 0, 0),
            iabx(OP_LOADK, 1, 1),
            iabx(OP_CLOSURE, 2, 0),
            iabc(OP_MOVE, 3, 2, 0),
            iabc(OP_CALL, 3, 1, 1),
            iabc(OP_ADD, 3, 3, 4),
            iabc(OP_RETURN, 0, 1, 0),
        ],
        &[Konst::I(88), Konst::I(11)],
        &[],
        &[inner],
        &[],
    );
    let data = chunk_bytes(0, &main);
    let mut l = prepare(&data);
    // LOADK 0 ; 88
    step(&mut l);
    assert_eq!(l.stack.stack[2], LuaValue::Integer(88));
    // LOADK 1 ; 11
    step(&mut l);
    assert_eq!(l.stack.stack[3], LuaValue::Integer(11));
    // CLOSURE 2 0
    step(&mut l);
    assert!(is_closure(&l.stack.stack[4]), "expect function");
    // MOVE 3 2
    step(&mut l);
    assert!(is_closure(&l.stack.stack[5]), "expect function");
    // CALL 3 1 1
    step(&mut l);
    assert!(is_closure(&l.stack.stack[5]), "expect function");
    // GETUPVAL 0 0
    step(&mut l);
    assert_eq!(l.stack.stack[6], LuaValue::Integer(88));
    // GETUPVAL 1 1
    step(&mut l);
    assert_eq!(l.stack.stack[7], LuaValue::Integer(11));
    // MOVE 2 0
    step(&mut l);
    assert_eq!(l.stack.stack[8], LuaValue::Integer(88));
    // MOVE 3 1
    step(&mut l);
    assert_eq!(l.stack.stack[9], LuaValue::Integer(11));
    // RETURN 2 3
    step(&mut l);
    assert_eq!(l.stack.stack[5], LuaValue::Integer(88));
    assert_eq!(l.stack.stack[6], LuaValue::Integer(11));
    // ADD 3 3 4: the captured outer value is observably 99
    step(&mut l);
    assert_eq!(l.stack.stack[5], LuaValue::Integer(99));
    assert_eq!(l.stack.stack[6], LuaValue::Integer(11));
    // RETURN 0 1 returns nothing: the outer frame pops and its window is
    // trimmed away
    step(&mut l);
    assert_eq!(l.stack.stack.len(), 1);
    assert!(l.fetch().is_none());
}

#[test]
fn sample_lua() {
    let l = &mut LuaState::new();
    assert_eq!(l.get_top(), 0);
    let proto = parse_main(&sample_chunk());
    l.load(proto).unwrap();
    assert_eq!(l.get_top(), 1);
    let idx = l.get_top() as isize;
    assert!(l.is_function(api_slot(l, idx)));
    l.call(0, 0, FUEL).unwrap();
    let idx = l.get_top() as isize;
    assert!(l.is_number(api_slot(l, idx)));
}

#[test]
fn sample_test_function_test() {
    let inner = proto_bytes(
        b"",
        2,
        0,
        3,
        &[iabc(OP_ADD, 2, 0, 1), iabc(OP_RETURN, 0, 4, 0)],
        &[],
        &[],
        &[],
        &[],
    );
    let main = proto_bytes(
        b"",
        0,
        1,
        3,
        &[
            iabx(OP_CLOSURE, 0, 0),
            iabx(OP_LOADK, 1, 0),
            iabx(OP_LOADK, 2, 1),
            iabc(OP_CALL, 0, 3, 1),
            iabc(OP_RETURN, 0, 4, 0),
        ],
        &[Konst::I(11), Konst::I(3)],
        &[],
        &[inner],
        &[],
    );
    let data = chunk_bytes(0, &main);
    let l = &mut LuaState::new();
    assert_eq!(l.get_top(), 0);
    assert!(l.is_nil(api_slot(l, -1)));
    let proto = parse_main(&data);
    l.load(proto).unwrap();
    assert_eq!(l.get_top(), 1);
    assert!(l.is_function(api_slot(l, -1)));
    l.call(0, 0, FUEL).unwrap();
    assert_eq!(l.get_top(), 3);
    assert!(l.is_number(api_slot(l, -1)));
    assert!(l.is_number(api_slot(l, -2)));
    assert!(l.is_number(api_slot(l, -3)));
    assert_eq!(value_at(l, -1), LuaValue::Integer(14));
    assert_eq!(value_at(l, -2), LuaValue::Integer(3));
    assert_eq!(value_at(l, -3), LuaValue::Integer(11));
}

/// The absolute stack slot a (possibly negative) api index names,
/// resolved relative to the active frame's base.
fn api_slot(l: &LuaState, idx: isize) -> usize {
    (l.get_base() as isize + l.abs_index(idx)) as usize
}

/// The value a (possibly negative) api index names.
fn value_at(l: &LuaState, idx: isize) -> LuaValue {
    let abs = l.abs_index(idx);
    l.get(abs as usize).unwrap()
}

#[test]
fn global_test() {
    let l = &mut LuaState::new();
    l.push(LuaValue::Integer(1103));
    assert_eq!(l.get_top(), 1);
    l.set_global(b"hui".to_vec()).unwrap();
    assert_eq!(l.get_top(), 0);
    let main = proto_bytes(
        b"",
        0,
        1,
        2,
        &[
            iabx(OP_LOADK, 0, 0),
            iabc(OP_GETTABUP, 1, 0, RK + 1),
            iabc(OP_RETURN, 0, 3, 0),
        ],
        &[Konst::I(88), Konst::S(b"hui")],
        &[(1, 0)],
        &[],
        &[b"_ENV"],
    );
    let data = chunk_bytes(1, &main);
    let proto = parse_main(&data);
    l.load(proto).unwrap();
    assert_eq!(l.get_top(), 1);
    assert!(l.is_function(api_slot(l, -1)));
    l.call(0, 0, FUEL).unwrap();
    assert_eq!(l.get_top(), 2);
    assert!(l.is_number(api_slot(l, -1)));
    assert!(l.is_number(api_slot(l, -2)));
    assert_eq!(value_at(l, -1), LuaValue::Integer(1103));
    assert_eq!(value_at(l, -2), LuaValue::Integer(88));
}

#[test]
fn print_test() {
    let l = &mut LuaState::new();
    assert_eq!(l.get_top(), 0);
    l.push_native_function(7);
    assert_eq!(l.get_top(), 1);
    l.set_global(b"print".to_vec()).unwrap();
    assert_eq!(l.get_top(), 0);
    let main = proto_bytes(
        b"",
        0,
        1,
        2,
        &[
            iabc(OP_GETTABUP, 0, 0, RK),
            iabx(OP_LOADK, 1, 1),
            iabc(OP_CALL, 0, 2, 1),
            iabx(OP_LOADK, 0, 2),
            iabc(OP_RETURN, 0, 2, 0),
        ],
        &[
            Konst::S(b"print"),
            Konst::S(b"Hello SweetHui"),
            Konst::I(881103),
        ],
        &[(1, 0)],
        &[],
        &[b"_ENV"],
    );
    let data = chunk_bytes(1, &main);
    let proto = parse_main(&data);
    l.load(proto).unwrap();
    assert_eq!(l.get_top(), 1);
    assert!(l.is_function(api_slot(l, -1)));
    match l.call(0, 0, FUEL).unwrap() {
        RunResult::NativeCall(id, b) => {
            // the host's `print` runs here
            assert_eq!(id, 7);
            let arg = value_at(l, -1);
            assert_eq!(arg, LuaValue::Str(b"Hello SweetHui".to_vec()));
            l.finish_native_call(b).unwrap();
        },
        other => panic!("expected a native call, got {:?}", other),
    }
    match lua_vm_execute(l, FUEL).unwrap() {
        RunResult::Halted => {},
        other => panic!("expected the script to finish, got {:?}", other),
    }
    assert!(l.is_number(api_slot(l, -1)));
    assert_eq!(value_at(l, -1), LuaValue::Integer(881103));
}

#[test]
fn base_library() {
    let l = &mut LuaState::new();
    l.luaopen_base(0).unwrap();
    l.get_global(b"print".to_vec()).unwrap();
    assert!(l.is_cfunction(api_slot(l, -1)));
    l.pop(1).unwrap();
    l.get_global(b"_G".to_vec()).unwrap();
    assert!(l.is_table(api_slot(l, -1)));
}

#[test]
fn header_round_trip() {
    let data = header_bytes();
    let (h, p) = Header::parse(&data).unwrap();
    assert_eq!(p, 33);
    assert_eq!(h.signature, vec![0x1b, 0x4c, 0x75, 0x61]);
    assert_eq!(h.version, 0x53);
    assert_eq!(h.format, 0);
    assert_eq!(h.luac_int, 0x5678);
    assert_eq!(f64::from_bits(h.luac_num_bits), 370.5);
}

#[test]
fn malformed_header_rejected() {
    let good = chunk_bytes(0, &proto_bytes(b"", 0, 1, 2, &[iabc(OP_RETURN, 0, 1, 0)], &[], &[], &[], &[]));
    assert!(Chunk::parse(&good).is_ok());
    // corrupting any of the 6 literal tail bytes is rejected
    for i in 6..12 {
        let mut bad = good.clone();
        bad[i] ^= 0x01;
        assert_eq!(Chunk::parse(&bad).err(), Some(LuaError::FormatError), "tail byte {}", i);
    }
    // so is corrupting the signature, version or format
    for i in 0..6 {
        let mut bad = good.clone();
        bad[i] ^= 0x01;
        assert_eq!(Chunk::parse(&bad).err(), Some(LuaError::FormatError), "byte {}", i);
    }
    // and so is corrupting either sanity constant
    for i in [17, 24, 25, 32] {
        let mut bad = good.clone();
        bad[i] ^= 0x01;
        assert_eq!(Chunk::parse(&bad).err(), Some(LuaError::FormatError), "byte {}", i);
    }
    // truncation anywhere inside the chunk is rejected
    for k in 0..good.len() {
        assert_eq!(Chunk::parse(&good[..k]).err(), Some(LuaError::FormatError), "truncated at {}", k);
    }
}

#[test]
fn new_tables_never_alias() {
    let main = proto_bytes(
        b"",
        0,
        1,
        2,
        &[
            iabc(OP_NEWTABLE, 0, 2, 0),
            iabc(OP_NEWTABLE, 1, 2, 0),
            iabc(OP_RETURN, 0, 1, 0),
        ],
        &[],
        &[],
        &[],
        &[],
    );
    let data = chunk_bytes(0, &main);
    let mut l = prepare(&data);
    step(&mut l);
    step(&mut l);
    // identical contents (both empty, same size), still never equal
    assert_ne!(l.stack.stack[2], l.stack.stack[3]);
    // and writing through one is invisible through the other
    let h1 = table_handle(&l.stack.stack[2]);
    let h2 = table_handle(&l.stack.stack[3]);
    l.tables[h1].set_array(1, LuaValue::Integer(5));
    assert_eq!(l.tables[h2].get_array(1), LuaValue::Nil);
}

#[test]
fn integer_add_wraps() {
    let main = proto_bytes(
        b"",
        0,
        1,
        2,
        &[
            iabx(OP_LOADK, 0, 0),
            iabc(OP_ADD, 0, 0, RK + 1),
            iabc(OP_RETURN, 0, 1, 0),
        ],
        &[Konst::I(i64::MAX), Konst::I(1)],
        &[],
        &[],
        &[],
    );
    let data = chunk_bytes(0, &main);
    let mut l = prepare(&data);
    step(&mut l);
    step(&mut l);
    assert_eq!(l.stack.stack[2], LuaValue::Integer(i64::MIN));
}

#[test]
fn add_type_error() {
    let main = proto_bytes(
        b"",
        0,
        1,
        2,
        &[iabc(OP_ADD, 0, RK, RK + 1), iabc(OP_RETURN, 0, 1, 0)],
        &[Konst::S(b"x"), Konst::I(1)],
        &[],
        &[],
        &[],
    );
    let data = chunk_bytes(0, &main);
    let mut l = prepare(&data);
    let inst = l.fetch().unwrap();
    assert_eq!(l.execute(inst), Err(LuaError::TypeError));
}

#[test]
fn gettable_type_error() {
    let main = proto_bytes(
        b"",
        0,
        1,
        2,
        &[
            iabx(OP_LOADK, 0, 0),
            iabc(OP_GETTABLE, 1, 0, RK),
            iabc(OP_RETURN, 0, 1, 0),
        ],
        &[Konst::I(5)],
        &[],
        &[],
        &[],
    );
    let data = chunk_bytes(0, &main);
    let mut l = prepare(&data);
    step(&mut l);
    let inst = l.fetch().unwrap();
    assert_eq!(l.execute(inst), Err(LuaError::TypeError));
}

#[test]
fn unsupported_opcode_reported() {
    let main = proto_bytes(
        b"",
        0,
        1,
        2,
        &[iabc(OP_UNM, 0, 0, 0), iabc(OP_RETURN, 0, 1, 0)],
        &[],
        &[],
        &[],
        &[],
    );
    let data = chunk_bytes(0, &main);
    let mut l = prepare(&data);
    let inst = l.fetch().unwrap();
    assert_eq!(l.execute(inst), Err(LuaError::UnsupportedOpcode(OP_UNM)));
}

#[test]
fn bad_constant_index_rejected() {
    let main = proto_bytes(
        b"",
        0,
        1,
        2,
        &[iabx(OP_LOADK, 0, 9), iabc(OP_RETURN, 0, 1, 0)],
        &[Konst::I(1)],
        &[],
        &[],
        &[],
    );
    let data = chunk_bytes(0, &main);
    let mut l = prepare(&data);
    let inst = l.fetch().unwrap();
    assert_eq!(l.execute(inst), Err(LuaError::BadOperand));
}

#[test]
fn float_constant_bits_preserved() {
    let main = proto_bytes(
        b"",
        0,
        1,
        2,
        &[iabx(OP_LOADK, 0, 0), iabc(OP_RETURN, 0, 1, 0)],
        &[Konst::N(370.5)],
        &[],
        &[],
        &[],
    );
    let data = chunk_bytes(0, &main);
    let mut l = prepare(&data);
    step(&mut l);
    assert_eq!(l.stack.stack[2], LuaValue::Number(370.5f64.to_bits()));
}

#[test]
fn nil_and_boolean_constants_resolve() {
    let main = proto_bytes(
        b"",
        0,
        1,
        3,
        &[
            iabx(OP_LOADK, 0, 0),
            iabx(OP_LOADK, 1, 1),
            iabx(OP_LOADK, 2, 2),
            iabc(OP_RETURN, 0, 1, 0),
        ],
        &[Konst::Empty, Konst::B(1), Konst::B(0)],
        &[],
        &[],
        &[],
    );
    let data = chunk_bytes(0, &main);
    let mut l = prepare(&data);
    step(&mut l);
    step(&mut l);
    step(&mut l);
    assert_eq!(l.stack.stack[2], LuaValue::Nil);
    assert_eq!(l.stack.stack[3], LuaValue::Boolean(true));
    assert_eq!(l.stack.stack[4], LuaValue::Boolean(false));
}

#[test]
fn table_set_beyond_array_goes_to_hash() {
    let mut l = LuaState::new();
    let v = l.create_table(2, 0);
    let h = table_handle(&v);
    l.set_table_value(h, LuaValue::Integer(10), LuaValue::Integer(7));
    assert_eq!(l.tables[h].len(), 2);
    assert_eq!(l.get_table_value(h, &LuaValue::Integer(10)), LuaValue::Integer(7));
    assert_eq!(l.tables[h].get_hash(&LuaValue::Integer(10)), LuaValue::Integer(7));
    // in-range stores land in the array part
    l.set_table_value(h, LuaValue::Integer(1), LuaValue::Integer(9));
    assert_eq!(l.tables[h].get_array(1), LuaValue::Integer(9));
    // and nil keys read as nil
    assert_eq!(l.get_table_value(h, &LuaValue::Nil), LuaValue::Nil);
}

#[test]
fn codec_decodes_packed_fields() {
    let w = iabc(OP_ADD, 5, 0x1f3, 0x0e2);
    assert_eq!(w.opcode(), OP_ADD);
    assert_eq!(w.abc(), (5, 0x1f3, 0x0e2));
    let w2 = iabx(OP_LOADK, 7, 0x2abcd);
    assert_eq!(w2.opcode(), OP_LOADK);
    assert_eq!(w2.a_bx(), (7, 0x2abcd));
    // sBx is Bx biased by 131071
    let w3 = iabx(OP_LOADK, 1, 131071 + 5);
    assert_eq!(w3.a_sbx(), (1, 5));
    let w4 = iabx(OP_LOADK, 1, 131071 - 9);
    assert_eq!(w4.a_sbx(), (1, -9));
}

#[test]
fn opcode_table_matches_reference() {
    let names = [
        "MOVE    ", "LOADK   ", "LOADKX  ", "LOADBOOL", "LOADNIL ", "GETUPVAL", "GETTABUP",
        "GETTABLE", "SETTABUP", "SETUPVAL", "SETTABLE", "NEWTABLE", "SELF    ", "ADD     ",
        "SUB     ", "MUL     ", "MOD     ", "POW     ", "DIV     ", "IDIV    ", "BAND    ",
        "BOR     ", "BXOR    ", "SHL     ", "SHR     ", "UNM     ", "BNOT    ", "NOT     ",
        "LEN     ", "CONCAT  ", "JMP     ", "EQ      ", "LT      ", "LE      ", "TEST    ",
        "TESTSET ", "CALL    ", "TAILCALL", "RETURN  ", "FORLOOP ", "FORPREP ", "TFORCALL",
        "TFORLOOP", "SETLIST ", "CLOSURE ", "VARARG  ", "EXTRAARG",
    ];
    // (bmode, cmode, opmode) per opcode, hand-checked against the format
    let modes: [(u8, u8, u8); 47] = [
        (2, 0, 0), (3, 0, 1), (0, 0, 1), (1, 1, 0), (1, 0, 0), (1, 0, 0), (1, 3, 0), (2, 3, 0),
        (3, 3, 0), (1, 0, 0), (3, 3, 0), (1, 1, 0), (2, 3, 0), (3, 3, 0), (3, 3, 0), (3, 3, 0),
        (3, 3, 0), (3, 3, 0), (3, 3, 0), (3, 3, 0), (3, 3, 0), (3, 3, 0), (3, 3, 0), (3, 3, 0),
        (3, 3, 0), (2, 0, 0), (2, 0, 0), (2, 0, 0), (2, 0, 0), (2, 2, 0), (2, 0, 2), (3, 3, 0),
        (3, 3, 0), (3, 3, 0), (0, 1, 0), (2, 1, 0), (1, 1, 0), (1, 1, 0), (1, 0, 0), (2, 0, 2),
        (2, 0, 2), (0, 1, 0), (2, 0, 2), (1, 1, 0), (1, 0, 1), (1, 0, 0), (1, 1, 3),
    ];
    for op in 0u8..=46 {
        let e = opcodes(op);
        assert_eq!(e.name, names[op as usize], "name of opcode {}", op);
        let (bm, cm, om) = modes[op as usize];
        assert_eq!(e.bmode, bm, "bmode of opcode {}", op);
        assert_eq!(e.cmode, cm, "cmode of opcode {}", op);
        assert_eq!(e.opmode, om, "opmode of opcode {}", op);
    }
}

#[test]
fn setlist_with_extraarg_batch() {
    // c == 0: the batch number comes from a following EXTRAARG word
    let extraarg: u32 = 46u32 | (1 << 6); // EXTRAARG with ax = 1
    let main = proto_bytes(
        b"",
        0,
        1,
        3,
        &[
            iabc(OP_NEWTABLE, 0, 2, 0),
            iabx(OP_LOADK, 1, 0),
            iabx(OP_LOADK, 2, 1),
            iabc(OP_SETLIST, 0, 2, 0),
            extraarg,
            iabc(OP_RETURN, 0, 1, 0),
        ],
        &[Konst::I(21), Konst::I(42)],
        &[],
        &[],
        &[],
    );
    let data = chunk_bytes(0, &main);
    let mut l = prepare(&data);
    step(&mut l);
    step(&mut l);
    step(&mut l);
    let h = table_handle(&l.stack.stack[2]);
    // SETLIST consumes the EXTRAARG word as it executes
    step(&mut l);
    assert_eq!(l.tables[h].get_array(1), LuaValue::Integer(21));
    assert_eq!(l.tables[h].get_array(2), LuaValue::Integer(42));
    // only RETURN is left
    step(&mut l);
    assert!(l.fetch().is_none());
}

#[test]
fn setupval_writes_through_alias() {
    let inner = proto_bytes(
        b"",
        0,
        0,
        2,
        &[
            iabx(OP_LOADK, 0, 0),
            iabc(9, 0, 0, 0), // SETUPVAL 0 0: upvalue[0] := R(0)
            iabc(OP_GETUPVAL, 1, 0, 0),
            iabc(OP_RETURN, 1, 2, 0),
        ],
        &[Konst::I(55)],
        &[(1, 0)],
        &[],
        &[],
    );
    let main = proto_bytes(
        b"",
        0,
        1,
        3,
        &[
            iabx(OP_LOADK, 0, 0),
            iabx(OP_CLOSURE, 1, 0),
            iabc(OP_CALL, 1, 1, 2),
            iabc(OP_RETURN, 1, 2, 0),
        ],
        &[Konst::I(1)],
        &[],
        &[inner],
        &[],
    );
    let data = chunk_bytes(0, &main);
    let mut l = prepare(&data);
    match lua_vm_execute(&mut l, FUEL).unwrap() {
        RunResult::Halted => {},
        other => panic!("expected the script to finish, got {:?}", other),
    }
    // the callee wrote 55 into its upvalue, read it back as its result,
    // and the main function returned it
    assert_eq!(l.stack.stack[1], LuaValue::Integer(55));
}

#[test]
fn out_of_fuel_reported() {
    let data = sample_chunk();
    let proto = parse_main(&data);
    let mut l = LuaState::new();
    let closure = l.new_lua_closure(proto);
    l.push(closure);
    assert_eq!(l.internal_call(0, 2), Ok(RunResult::OutOfFuel));
}

#[test]
fn prototype_structural_fidelity() {
    let data = sample_chunk();
    let main = parse_main(&data);
    assert_eq!(main.code.len(), 4);
    assert_eq!(main.constants.len(), 3);
    assert_eq!(
        main.constants[0],
        Constant {
            const_type: llua::chunk::ConstantType(0x13),
            const_value: ConstantValue::Integer(0),
        }
    );
    let mut l = prepare(&data);
    while let Some(inst) = l.fetch() {
        l.execute(inst).expect("instruction failed");
    }
    assert_eq!(l.stack.stack[1], LuaValue::Integer(3));
}

#[test]
fn push_and_type_queries() {
    let l = &mut LuaState::new();
    assert_eq!(l.get_top(), 0);
    l.push(LuaValue::Nil);
    assert_eq!(l.get_top(), 1);
    assert!(l.is_nil(api_slot(l, -1)));
    l.push(LuaValue::Integer(881103));
    assert_eq!(l.get_top(), 2);
    assert!(l.is_integer(api_slot(l, -1)));
    l.push(LuaValue::Boolean(true));
    assert_eq!(l.get_top(), 3);
    assert!(l.is_boolean(api_slot(l, -1)));
    l.push(LuaValue::Str(b"sweethui".to_vec()));
    assert_eq!(l.get_top(), 4);
    assert!(l.is_string(api_slot(l, -1)));
    l.push(LuaValue::Number(881103.0f64.to_bits()));
    assert_eq!(l.get_top(), 5);
    assert!(l.is_number(api_slot(l, -1)));
}

#[test]
fn register_out_of_window_rejected() {
    // MOVE into register 200 of a 1-slot window
    let main = proto_bytes(
        b"",
        0,
        1,
        1,
        &[iabc(OP_MOVE, 200, 0, 0), iabc(OP_RETURN, 0, 1, 0)],
        &[],
        &[],
        &[],
        &[],
    );
    let data = chunk_bytes(0, &main);
    let mut l = prepare(&data);
    let inst = l.fetch().unwrap();
    assert_eq!(l.execute(inst), Err(LuaError::StackOverflow));
}
