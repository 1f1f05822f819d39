//! The execution engine: closure instantiation, call-frame management
//! (precall / postcall), and the fetch-decode-dispatch loop.

use vstd::prelude::*;

use std::rc::Rc;

use crate::LuaError;
use crate::chunk::ProtoView;
use crate::chunk::Prototype;
use crate::chunk::UpValueName;
use crate::constants::LUA_RIDX_GLOBALS;
use crate::function::ClosureView;
use crate::instruction::Instruction;
use crate::function::LuaClosure;
use crate::state::CallInfo;
use crate::state::LuaState;
use crate::state::val_ok;
use crate::table::spec_table_get;
use crate::value::LuaVal;
use crate::value::LuaValue;

verus! {

/// The byte string `_ENV`, the conventional name of the upvalue that
/// carries the ambient global table.
pub open spec fn env_name() -> Seq<u8> {
    seq![0x5fu8, 0x45u8, 0x4eu8, 0x56u8]
}

/// Whether upvalue descriptor `i` of `p` names the ambient global table.
pub open spec fn is_env(p: ProtoView, i: int) -> bool {
    i < p.upvalue_names.len() && p.upvalue_names[i] == env_name()
}

/// The value upvalue descriptor `i` of `p` captures when a closure is
/// instantiated in state `s`: an in-stack descriptor takes the creating
/// frame's register (or the ambient global table when it is named `_ENV`),
/// any other descriptor copies the creating closure's own upvalue.
pub open spec fn spec_capture(s: LuaState, p: ProtoView, i: int) -> LuaVal {
    let uv = p.upvalues[i];
    if uv.instack == 1 {
        if is_env(p, i) {
            spec_table_get(
                s.table_at(s.registry as int),
                LuaVal::Integer(LUA_RIDX_GLOBALS as i64),
            )
        } else {
            s.stackv()[s.cur().base + 1 + uv.idx]
        }
    } else {
        s.closure_at(s.cur().func as int).upvalues[uv.idx as int]
    }
}

/// Whether capturing upvalue descriptor `i` of `p` stays in bounds.
pub open spec fn capture_ok(s: LuaState, p: ProtoView, i: int) -> bool {
    let uv = p.upvalues[i];
    if uv.instack == 1 {
        is_env(p, i) || s.cur().base + 1 + uv.idx < s.stackv().len()
    } else {
        uv.idx < s.closure_at(s.cur().func as int).upvalues.len()
    }
}

/// Whether `n` is the byte string `_ENV`.
fn name_is_env(n: &UpValueName) -> (r: bool)
    ensures
        r == (n@ == env_name()),
{
    let r = n.value.len() == 4 && n.value[0] == 0x5f && n.value[1] == 0x45 && n.value[2] == 0x4e
        && n.value[3] == 0x56;
    proof {
        if r {
            assert(n@ =~= env_name());
        }
    }
    r
}

impl LuaState {
    /// Instantiates a closure from `proto` in the active frame, capturing
    /// one value per upvalue descriptor, and allocates it in the closure
    /// arena.  Succeeds exactly when every capture is in bounds.
    pub fn load_proto(&mut self, proto: Rc<Prototype>) -> (r: Result<LuaValue, LuaError>)
        requires
            old(self).wf(),
        ensures
            final(self).wf(),
            final(self).stackv() == old(self).stackv(),
            final(self).frames() == old(self).frames(),
            final(self).tables@ == old(self).tables@,
            final(self).registry == old(self).registry,
            match r {
                Ok(v) => {
                    let h = old(self).nc();
                    &&& forall|i: int| 0 <= i < proto@.upvalues.len() ==> capture_ok(*old(self), proto@, i)
                    &&& v@ == LuaVal::Closure(h)
                    &&& final(self).nc() == h + 1
                    &&& forall|h2: int|
                        0 <= h2 < h ==> final(self).closures@[h2] == old(self).closures@[h2]
                    &&& final(self).closure_at(h).proto == proto@
                    &&& final(self).closure_at(h).native is None
                    &&& final(self).closure_at(h).upvalues.len() == proto@.upvalues.len()
                    &&& forall|i: int|
                        0 <= i < proto@.upvalues.len() ==> final(self).closure_at(h).upvalues[i]
                            == spec_capture(*old(self), proto@, i)
                },
                Err(e) => {
                    &&& !(forall|i: int|
                        0 <= i < proto@.upvalues.len() ==> capture_ok(*old(self), proto@, i))
                    &&& (e == LuaError::StackOverflow || e == LuaError::BadOperand)
                    &&& final(self).closures@ == old(self).closures@
                },
            },
    {
        let n = proto.upvalues.len();
        let mut upvals: Vec<LuaValue> = Vec::new();
        let mut i: usize = 0;
        while i < n
            invariant
                self == old(self),
                old(self).wf(),
                n == proto@.upvalues.len(),
                i <= n,
                upvals@.len() == i,
                forall|j: int| 0 <= j < i ==> capture_ok(*old(self), proto@, j),
                forall|j: int|
                    0 <= j < i ==> upvals@[j]@ == spec_capture(*old(self), proto@, j),
                forall|j: int|
                    0 <= j < i ==> val_ok(#[trigger] upvals@[j]@, old(self).nt(), old(self).nc()),
            decreases n - i,
        {
            let uv = proto.upvalues[i];
            let v: LuaValue;
            if uv.instack == 1 {
                let env: bool = if i < proto.upvalue_names.len() {
                    name_is_env(&proto.upvalue_names[i])
                } else {
                    false
                };
                if env {
                    let key = LuaValue::Integer(LUA_RIDX_GLOBALS as i64);
                    v = self.get_table_value(self.registry, &key);
                } else {
                    match self.get_register(uv.idx as usize) {
                        Ok(x) => {
                            proof {
                                assert(val_ok(
                                    self.stackv()[self.cur().base + 1 + uv.idx],
                                    self.nt(),
                                    self.nc(),
                                ));
                            }
                            v = x;
                        },
                        Err(e) => {
                            proof {
                                assert(!capture_ok(*old(self), proto@, i as int));
                            }
                            return Err(e);
                        },
                    }
                }
            } else {
                let f = self.current();
                let c = &self.closures[f.func];
                if (uv.idx as usize) < c.upvalues.len() {
                    proof {
                        assert(val_ok(
                            self.closure_at(self.cur().func as int).upvalues[uv.idx as int],
                            self.nt(),
                            self.nc(),
                        ));
                    }
                    v = c.upvalues[uv.idx as usize].clone();
                } else {
                    proof {
                        assert(!capture_ok(*old(self), proto@, i as int));
                    }
                    return Err(LuaError::BadOperand);
                }
            }
            upvals.push(v);
            i = i + 1;
        }
        let h = self.closures.len();
        proof {
            assert forall|k: int|
                0 <= k < crate::value::vals_view(upvals@).len() implies val_ok(
                #[trigger] crate::value::vals_view(upvals@)[k],
                old(self).nt(),
                old(self).nc(),
            ) by {
                assert(crate::value::vals_view(upvals@)[k] == upvals@[k]@);
            }
        }
        let c = LuaClosure { proto, native: None, upvalues: upvals };
        self.closures.push(c);
        proof {
            self.lemma_wf_after_closure_push(*old(self));
        }
        Ok(LuaValue::Closure(h))
    }

    /// Wraps a parsed main prototype as a closure (capturing its upvalues,
    /// conventionally `_ENV`) and pushes it on the stack.
    pub fn load(&mut self, proto: Prototype) -> (r: Result<(), LuaError>)
        requires
            old(self).wf(),
        ensures
            final(self).wf(),
            final(self).frames() == old(self).frames(),
            final(self).tables@ == old(self).tables@,
            final(self).registry == old(self).registry,
            match r {
                Ok(()) => {
                    &&& final(self).stackv() == old(self).stackv().push(
                        LuaVal::Closure(old(self).nc()),
                    )
                    &&& final(self).nc() == old(self).nc() + 1
                    &&& final(self).closure_at(old(self).nc()).proto == proto@
                    &&& final(self).closure_at(old(self).nc()).native is None
                },
                Err(e) => final(self).stackv() == old(self).stackv() && final(self).closures@
                    == old(self).closures@,
            },
    {
        let rp = Rc::new(proto);
        match self.load_proto(rp) {
            Ok(v) => {
                self.push(v);
                Ok(())
            },
            Err(e) => Err(e),
        }
    }
}

} // verus!

verus! {

/// What one dispatched instruction reports: an ordinary step, or a native
/// call the host must perform (carrying the function's identifier and the
/// instruction's B operand).
#[derive(Clone, Copy, Debug, PartialEq, Eq, Structural)]
pub enum StepEvent {
    Normal,
    NativeCall(u32, usize),
}

/// Why a run loop stopped: the frame's code ran out, the step budget ran
/// out, or a native call needs the host.
#[derive(Clone, Copy, Debug, PartialEq, Eq, Structural)]
pub enum RunResult {
    Halted,
    OutOfFuel,
    NativeCall(u32, usize),
}

/// Nothing moved.
pub open spec fn unchanged(s0: LuaState, s1: LuaState) -> bool {
    &&& s1.registry == s0.registry
    &&& s1.tables@ == s0.tables@
    &&& s1.closures@ == s0.closures@
    &&& s1.stack@ == s0.stack@
    &&& s1.base_ci@ == s0.base_ci@
}

/// Only the value stack moved.
pub open spec fn same_except_stack(s0: LuaState, s1: LuaState) -> bool {
    &&& s1.registry == s0.registry
    &&& s1.tables@ == s0.tables@
    &&& s1.closures@ == s0.closures@
    &&& s1.base_ci@ == s0.base_ci@
}

/// Register `j` of the active frame exists.
pub open spec fn reg_ok(s: LuaState, j: int) -> bool {
    s.cur().base + 1 + j < s.stackv().len()
}

/// Register `j` of the active frame.
pub open spec fn spec_reg(s: LuaState, j: int) -> LuaVal {
    s.stackv()[s.cur().base + 1 + j]
}

/// The active closure's constant pool.
pub open spec fn consts_of(s: LuaState) -> Seq<crate::chunk::ConstantView> {
    s.closure_at(s.cur().func as int).proto.constants
}

/// The active closure's upvalues.
pub open spec fn ups_of(s: LuaState) -> Seq<LuaVal> {
    s.closure_at(s.cur().func as int).upvalues
}

/// The active closure's code.
pub open spec fn code_of(s: LuaState) -> Seq<u32> {
    s.closure_at(s.cur().func as int).proto.code
}

/// The active closure's nested prototypes.
pub open spec fn protos_of(s: LuaState) -> Seq<ProtoView> {
    s.closure_at(s.cur().func as int).proto.prototypes
}

/// An RK operand resolves: a constant index for 256 and above, a register
/// below.
pub open spec fn rk_ok(s: LuaState, x: int) -> bool {
    if x > 0xff {
        x - 0x100 < consts_of(s).len()
    } else {
        reg_ok(s, x)
    }
}

/// The value an RK operand resolves to.
pub open spec fn spec_rk(s: LuaState, x: int) -> LuaVal {
    if x > 0xff {
        crate::state::const_to_val(consts_of(s)[x - 0x100])
    } else {
        spec_reg(s, x)
    }
}

/// The error a failed RK resolution reports.
pub open spec fn rk_err(x: int) -> LuaError {
    if x > 0xff {
        LuaError::BadOperand
    } else {
        LuaError::StackOverflow
    }
}

/// Only register `a` of the active frame changed, to `v`.
pub open spec fn reg_upd(s0: LuaState, s1: LuaState, a: int, v: LuaVal) -> bool {
    &&& same_except_stack(s0, s1)
    &&& s1.stack@ == s0.stack@.update(s0.cur().base + 1 + a, v)
}

/// `s` cut or nil-extended to exactly `t` slots.
pub open spec fn stack_with_top(s: Seq<LuaVal>, t: int) -> Seq<LuaVal> {
    Seq::new(t as nat, |j: int| if 0 <= j < s.len() { s[j] } else { LuaVal::Nil })
}

/// `s` with the `count` returned values copied down onto the returning
/// frame's closure slot: slot `base + i` takes the value of slot
/// `base + 1 + a + i`.
pub open spec fn copied_rets(s: Seq<LuaVal>, base: int, a: int, count: int) -> Seq<LuaVal> {
    Seq::new(s.len(), |j: int| if base <= j < base + count { s[j + 1 + a] } else { s[j] })
}

/// How precall relates the state before and after: a native callee is
/// reported to the host untouched; a script callee gets a fresh frame whose
/// base is the callee's own stack slot, with the stack top set to the
/// frame's window top.
pub open spec fn precall_post(
    s0: LuaState,
    s1: LuaState,
    a: int,
    b: int,
    c: int,
    r: Result<StepEvent, LuaError>,
) -> bool {
    if !reg_ok(s0, a) {
        r == Err::<StepEvent, LuaError>(LuaError::StackOverflow) && unchanged(s0, s1)
    } else {
        match spec_reg(s0, a) {
            LuaVal::Closure(h) => {
                let cv = s0.closure_at(h);
                match cv.native {
                    Some(id) => r == Ok::<StepEvent, LuaError>(
                        StepEvent::NativeCall(id, b as usize),
                    ) && unchanged(s0, s1),
                    None => {
                        let nb = s0.cur().base + a + 1;
                        let mss = cv.proto.max_stack_size as int;
                        if nb + 1 + mss > usize::MAX {
                            r == Err::<StepEvent, LuaError>(LuaError::StackOverflow) && unchanged(
                                s0,
                                s1,
                            )
                        } else {
                            &&& r == Ok::<StepEvent, LuaError>(StepEvent::Normal)
                            &&& s1.registry == s0.registry
                            &&& s1.tables@ == s0.tables@
                            &&& s1.closures@ == s0.closures@
                            &&& s1.base_ci@ == s0.base_ci@.push(
                                CallInfo {
                                    func: h as usize,
                                    pc: 0,
                                    base: nb as usize,
                                    top: (nb + 1 + mss) as usize,
                                    nresults: (c - 1) as i64,
                                },
                            )
                            &&& s1.stack@ == stack_with_top(s0.stack@, nb + 1 + mss)
                        }
                    },
                }
            },
            _ => r == Err::<StepEvent, LuaError>(LuaError::TypeError) && unchanged(s0, s1),
        }
    }
}

/// How postcall relates the state before and after: the `b - 1` returned
/// values (`b` of 0 encodes none here) move down to the returning frame's
/// closure slot, the frame pops, and the top becomes the larger of the
/// write position and the caller's recorded top, so that a caller
/// expecting more results keeps its preallocated registers.
pub open spec fn postcall_post(
    s0: LuaState,
    s1: LuaState,
    a: int,
    b: int,
    r: Result<(), LuaError>,
) -> bool {
    if s0.base_ci@.len() < 2 {
        r == Err::<(), LuaError>(LuaError::StackOverflow) && unchanged(s0, s1)
    } else {
        let base = s0.cur().base as int;
        let count: int = if b == 0 {
            0
        } else {
            b - 1
        };  // a count encoding of 1 returns zero values and still pops
        if count > 0 && !(base + 1 + a + count <= s0.stack@.len()) {
            r == Err::<(), LuaError>(LuaError::StackOverflow) && unchanged(s0, s1)
        } else {
            let wanted = s0.base_ci@[s0.base_ci@.len() - 2].top as int;
            let newtop = if base + count < wanted {
                wanted
            } else {
                base + count
            };
            &&& r == Ok::<(), LuaError>(())
            &&& s1.registry == s0.registry
            &&& s1.tables@ == s0.tables@
            &&& s1.closures@ == s0.closures@
            &&& s1.base_ci@ == s0.base_ci@.drop_last()
            &&& s1.stack@ == stack_with_top(copied_rets(s0.stack@, base, a, count), newtop)
        }
    }
}

impl LuaState {
    /// Prepares a call through register `a` of the active frame, as the
    /// CALL instruction asks: a script callee gets a frame whose register 0
    /// is the caller's register `a + 1`, so the arguments already sit in
    /// place; a native callee is handed back for the host to run.
    pub fn precall(&mut self, a: usize, b: usize, c: usize) -> (r: Result<StepEvent, LuaError>)
        requires
            old(self).wf(),
            a < 256,
            b < 512,
            c < 512,
        ensures
            final(self).wf(),
            precall_post(*old(self), *final(self), a as int, b as int, c as int, r),
    {
        let v = match self.get_register(a) {
            Ok(v) => v,
            Err(e) => { return Err(e); },
        };
        let h: usize = match v {
            LuaValue::Closure(h) => h,
            _ => { return Err(LuaError::TypeError); },
        };
        match self.closures[h].native {
            Some(id) => Ok(StepEvent::NativeCall(id, b)),
            None => {
                let mss = self.closures[h].proto.max_stack_size;
                let base = self.get_base();
                let len = self.stack.get_top();
                proof {
                    assert(base + 1 + a < len);
                }
                let nb = base + a + 1;
                if nb > usize::MAX - 1 - mss as usize {
                    return Err(LuaError::StackOverflow);
                }
                let ci = CallInfo {
                    func: h,
                    pc: 0,
                    base: nb,
                    top: nb + 1 + mss as usize,
                    nresults: c as i64 - 1,
                };
                self.set_top(nb + 1 + mss as usize);
                self.base_ci.push(ci);
                proof {
                    assert(self.stack@ =~= stack_with_top(
                        old(self).stack@,
                        old(self).cur().base + a + 1 + 1
                            + old(self).closure_at(spec_reg(*old(self), a as int)->Closure_0)
                            .proto.max_stack_size,
                    ));
                }
                Ok(StepEvent::Normal)
            },
        }
    }

    /// Finishes a return through the RETURN instruction's operands, as
    /// postcall asks.
    pub fn postcall(&mut self, a: usize, b: usize, _c: usize) -> (r: Result<(), LuaError>)
        requires
            old(self).wf(),
            a < 256,
            b < 512,
        ensures
            final(self).wf(),
            postcall_post(*old(self), *final(self), a as int, b as int, r),
    {
        if self.base_ci.len() < 2 {
            return Err(LuaError::StackOverflow);
        }
        let f = self.current();
        let base = f.base;
        let count: usize = if b == 0 {
            0
        } else {
            b - 1
        };
        let len = self.stack.get_top();
        let ghost stack0 = self.stack@;
        if count > 0 {
            if len < base || len - base < 1 + a + count {
                return Err(LuaError::StackOverflow);
            }
            let mut i2: usize = 0;
            while i2 < count
                invariant
                    old(self).wf(),
                    self.base_ci@ == old(self).base_ci@,
                    self.registry == old(self).registry,
                    self.tables@ == old(self).tables@,
                    self.closures@ == old(self).closures@,
                    base == old(self).cur().base,
                    i2 <= count,
                    base + 1 + a + count <= stack0.len(),
                    stack0.len() <= usize::MAX,
                    stack0 == old(self).stack@,
                    self.stack@ == copied_rets(stack0, base as int, a as int, i2 as int),
                decreases count - i2,
            {
                let v = self.stack.get(base + 1 + a + i2);
                self.stack.set(base + i2, v);
                i2 = i2 + 1;
                proof {
                    assert(self.stack@ =~= copied_rets(stack0, base as int, a as int, i2 as int));
                }
            }
        } else {
            proof {
                assert(self.stack@ =~= copied_rets(stack0, base as int, a as int, 0));
            }
        }
        proof {
            let nt = self.nt();
            let nc = self.nc();
            assert forall|j: int| 0 <= j < self.stack@.len() implies val_ok(
                #[trigger] self.stack@[j],
                nt,
                nc,
            ) by {
                assert(val_ok(stack0[j], nt, nc));
                if base <= j < base + count {
                    assert(val_ok(stack0[j + 1 + a], nt, nc));
                }
            }
        }
        let _popped = self.base_ci.pop();
        let caller = self.current();
        let wanted = caller.top;
        let mut new_top = base + count;
        if new_top < wanted {
            new_top = wanted;
        }
        let ghost copied = self.stack@;
        self.set_top(new_top);
        proof {
            assert(self.base_ci@ =~= old(self).base_ci@.drop_last());
            assert(self.stack@ =~= stack_with_top(copied, new_top as int));
        }
        Ok(())
    }

    /// Pops the argument slots of a finished native call: `b - 1` of them,
    /// or none when `b` is 0 (the "all values up to top" encoding).
    pub fn finish_native_call(&mut self, b: usize) -> (r: Result<(), LuaError>)
        requires
            old(self).wf(),
            b < 512,
        ensures
            final(self).wf(),
            old(self).same_arenas(*final(self)),
            final(self).frames() == old(self).frames(),
            ({
                let argc: int = if b == 0 {
                    0
                } else {
                    b - 1
                };
                match r {
                    Ok(()) => argc <= old(self).stackv().len() && final(self).stackv() == old(
                        self,
                    ).stackv().take(old(self).stackv().len() - argc),
                    Err(e) => argc > old(self).stackv().len() && e == LuaError::StackOverflow
                        && final(self).stackv() == old(self).stackv(),
                }
            }),
    {
        let argc: usize = if b == 0 {
            0
        } else {
            b - 1
        };
        let len = self.stack.get_top();
        if argc > len {
            return Err(LuaError::StackOverflow);
        }
        let mut i: usize = 0;
        while i < argc
            invariant
                old(self).wf(),
                self.base_ci@ == old(self).base_ci@,
                self.registry == old(self).registry,
                self.tables@ == old(self).tables@,
                self.closures@ == old(self).closures@,
                i <= argc,
                argc <= old(self).stack@.len(),
                self.stack@ == old(self).stack@.take(old(self).stack@.len() - i),
            decreases argc - i,
        {
            let _ = self.stack.pop();
            i = i + 1;
            proof {
                assert(self.stack@ =~= old(self).stack@.take(old(self).stack@.len() - i));
            }
        }
        Ok(())
    }
}

} // verus!

verus! {

/// MOVE: register `a` takes register `b`'s value.
pub open spec fn move_post(s0: LuaState, s1: LuaState, i: u32, r: Result<StepEvent, LuaError>) -> bool {
    let a = i.spec_a() as int;
    let b = i.spec_b() as int;
    if !reg_ok(s0, b) {
        r == Err::<StepEvent, LuaError>(LuaError::StackOverflow) && unchanged(s0, s1)
    } else if !reg_ok(s0, a) {
        r == Err::<StepEvent, LuaError>(LuaError::StackOverflow) && unchanged(s0, s1)
    } else {
        r == Ok::<StepEvent, LuaError>(StepEvent::Normal) && reg_upd(s0, s1, a, spec_reg(s0, b))
    }
}

/// LOADK: register `a` takes the resolved constant `bx`.
pub open spec fn loadk_post(s0: LuaState, s1: LuaState, i: u32, r: Result<StepEvent, LuaError>) -> bool {
    let a = i.spec_a() as int;
    let bx = i.spec_bx() as int;
    if bx >= consts_of(s0).len() {
        r == Err::<StepEvent, LuaError>(LuaError::BadOperand) && unchanged(s0, s1)
    } else if !reg_ok(s0, a) {
        r == Err::<StepEvent, LuaError>(LuaError::StackOverflow) && unchanged(s0, s1)
    } else {
        r == Ok::<StepEvent, LuaError>(StepEvent::Normal) && reg_upd(
            s0,
            s1,
            a,
            crate::state::const_to_val(consts_of(s0)[bx]),
        )
    }
}

/// GETUPVAL: register `a` takes the active closure's upvalue `b`.
pub open spec fn getupval_post(s0: LuaState, s1: LuaState, i: u32, r: Result<StepEvent, LuaError>) -> bool {
    let a = i.spec_a() as int;
    let b = i.spec_b() as int;
    if b >= ups_of(s0).len() {
        r == Err::<StepEvent, LuaError>(LuaError::BadOperand) && unchanged(s0, s1)
    } else if !reg_ok(s0, a) {
        r == Err::<StepEvent, LuaError>(LuaError::StackOverflow) && unchanged(s0, s1)
    } else {
        r == Ok::<StepEvent, LuaError>(StepEvent::Normal) && reg_upd(s0, s1, a, ups_of(s0)[b])
    }
}

/// SETUPVAL: the active closure's upvalue `b` takes register `a`'s value,
/// visibly through every alias of the closure.
pub open spec fn setupval_post(s0: LuaState, s1: LuaState, i: u32, r: Result<StepEvent, LuaError>) -> bool {
    let a = i.spec_a() as int;
    let b = i.spec_b() as int;
    let f = s0.cur().func as int;
    if !reg_ok(s0, a) {
        r == Err::<StepEvent, LuaError>(LuaError::StackOverflow) && unchanged(s0, s1)
    } else if b >= ups_of(s0).len() {
        r == Err::<StepEvent, LuaError>(LuaError::BadOperand) && unchanged(s0, s1)
    } else {
        &&& r == Ok::<StepEvent, LuaError>(StepEvent::Normal)
        &&& s1.stack@ == s0.stack@
        &&& s1.base_ci@ == s0.base_ci@
        &&& s1.tables@ == s0.tables@
        &&& s1.registry == s0.registry
        &&& s1.closures@.len() == s0.closures@.len()
        &&& forall|h2: int|
            0 <= h2 < s0.nc() && h2 != f ==> s1.closures@[h2] == s0.closures@[h2]
        &&& s1.closure_at(f) == (ClosureView {
            upvalues: ups_of(s0).update(b, spec_reg(s0, a)),
            ..s0.closure_at(f)
        })
    }
}

/// GETTABUP: register `a` takes `UpValue[b][RK(c)]`; the upvalue must hold
/// a table.
pub open spec fn gettabup_post(s0: LuaState, s1: LuaState, i: u32, r: Result<StepEvent, LuaError>) -> bool {
    let a = i.spec_a() as int;
    let b = i.spec_b() as int;
    let c = i.spec_c() as int;
    if b >= ups_of(s0).len() {
        r == Err::<StepEvent, LuaError>(LuaError::BadOperand) && unchanged(s0, s1)
    } else {
        match ups_of(s0)[b] {
            LuaVal::Table(h) => if !rk_ok(s0, c) {
                r == Err::<StepEvent, LuaError>(rk_err(c)) && unchanged(s0, s1)
            } else if !reg_ok(s0, a) {
                r == Err::<StepEvent, LuaError>(LuaError::StackOverflow) && unchanged(s0, s1)
            } else {
                r == Ok::<StepEvent, LuaError>(StepEvent::Normal) && reg_upd(
                    s0,
                    s1,
                    a,
                    spec_table_get(s0.table_at(h), spec_rk(s0, c)),
                )
            },
            _ => r == Err::<StepEvent, LuaError>(LuaError::TypeError) && unchanged(s0, s1),
        }
    }
}

/// GETTABLE: register `a` takes `R(b)[RK(c)]`; register `b` must hold a
/// table.
pub open spec fn gettable_post(s0: LuaState, s1: LuaState, i: u32, r: Result<StepEvent, LuaError>) -> bool {
    let a = i.spec_a() as int;
    let b = i.spec_b() as int;
    let c = i.spec_c() as int;
    if !reg_ok(s0, b) {
        r == Err::<StepEvent, LuaError>(LuaError::StackOverflow) && unchanged(s0, s1)
    } else {
        match spec_reg(s0, b) {
            LuaVal::Table(h) => if !rk_ok(s0, c) {
                r == Err::<StepEvent, LuaError>(rk_err(c)) && unchanged(s0, s1)
            } else if !reg_ok(s0, a) {
                r == Err::<StepEvent, LuaError>(LuaError::StackOverflow) && unchanged(s0, s1)
            } else {
                r == Ok::<StepEvent, LuaError>(StepEvent::Normal) && reg_upd(
                    s0,
                    s1,
                    a,
                    spec_table_get(s0.table_at(h), spec_rk(s0, c)),
                )
            },
            _ => r == Err::<StepEvent, LuaError>(LuaError::TypeError) && unchanged(s0, s1),
        }
    }
}

/// SETTABLE: `R(a)[RK(b)] := RK(c)`; register `a` must hold a table, and
/// the store is visible through every alias of it.
pub open spec fn settable_post(s0: LuaState, s1: LuaState, i: u32, r: Result<StepEvent, LuaError>) -> bool {
    let a = i.spec_a() as int;
    let b = i.spec_b() as int;
    let c = i.spec_c() as int;
    if !reg_ok(s0, a) {
        r == Err::<StepEvent, LuaError>(LuaError::StackOverflow) && unchanged(s0, s1)
    } else {
        match spec_reg(s0, a) {
            LuaVal::Table(h) => if !rk_ok(s0, b) {
                r == Err::<StepEvent, LuaError>(rk_err(b)) && unchanged(s0, s1)
            } else if !rk_ok(s0, c) {
                r == Err::<StepEvent, LuaError>(rk_err(c)) && unchanged(s0, s1)
            } else {
                &&& r == Ok::<StepEvent, LuaError>(StepEvent::Normal)
                &&& s1.stack@ == s0.stack@
                &&& s1.base_ci@ == s0.base_ci@
                &&& s1.closures@ == s0.closures@
                &&& s1.registry == s0.registry
                &&& s1.nt() == s0.nt()
                &&& forall|h2: int|
                    0 <= h2 < s0.nt() && h2 != h ==> s1.tables@[h2] == s0.tables@[h2]
                &&& crate::table::table_set_post(
                    s0.table_at(h),
                    s1.table_at(h),
                    spec_rk(s0, b),
                    spec_rk(s0, c),
                )
            },
            _ => r == Err::<StepEvent, LuaError>(LuaError::TypeError) && unchanged(s0, s1),
        }
    }
}

/// NEWTABLE: register `a` takes a freshly allocated empty table sized by
/// the `b` (array) and `c` (hash) hints.
pub open spec fn newtable_post(s0: LuaState, s1: LuaState, i: u32, r: Result<StepEvent, LuaError>) -> bool {
    let a = i.spec_a() as int;
    let b = i.spec_b() as int;
    if !reg_ok(s0, a) {
        r == Err::<StepEvent, LuaError>(LuaError::StackOverflow) && unchanged(s0, s1)
    } else {
        &&& r == Ok::<StepEvent, LuaError>(StepEvent::Normal)
        &&& s1.nt() == s0.nt() + 1
        &&& forall|h2: int| 0 <= h2 < s0.nt() ==> s1.tables@[h2] == s0.tables@[h2]
        &&& s1.table_at(s0.nt()).arr.len() == b + 1
        &&& forall|k: int| 0 <= k <= b ==> s1.table_at(s0.nt()).arr[k] == LuaVal::Nil
        &&& s1.table_at(s0.nt()).pairs.len() == 0
        &&& s1.closures@ == s0.closures@
        &&& s1.base_ci@ == s0.base_ci@
        &&& s1.registry == s0.registry
        &&& s1.stack@ == s0.stack@.update(s0.cur().base + 1 + a, LuaVal::Table(s0.nt()))
    }
}

/// ADD: register `a` takes `RK(b) + RK(c)`; both operands must carry the
/// integer tag, and the sum wraps in 64 bits.
pub open spec fn add_post(s0: LuaState, s1: LuaState, i: u32, r: Result<StepEvent, LuaError>) -> bool {
    let a = i.spec_a() as int;
    let b = i.spec_b() as int;
    let c = i.spec_c() as int;
    if !rk_ok(s0, b) {
        r == Err::<StepEvent, LuaError>(rk_err(b)) && unchanged(s0, s1)
    } else {
        match spec_rk(s0, b) {
            LuaVal::Integer(x) => if !rk_ok(s0, c) {
                r == Err::<StepEvent, LuaError>(rk_err(c)) && unchanged(s0, s1)
            } else {
                match spec_rk(s0, c) {
                    LuaVal::Integer(y) => if !reg_ok(s0, a) {
                        r == Err::<StepEvent, LuaError>(LuaError::StackOverflow) && unchanged(s0, s1)
                    } else {
                        r == Ok::<StepEvent, LuaError>(StepEvent::Normal) && reg_upd(
                            s0,
                            s1,
                            a,
                            LuaVal::Integer((x + y) as i64),
                        )
                    },
                    _ => r == Err::<StepEvent, LuaError>(LuaError::TypeError) && unchanged(s0, s1),
                }
            },
            _ => r == Err::<StepEvent, LuaError>(LuaError::TypeError) && unchanged(s0, s1),
        }
    }
}

/// The table store effects of one SETLIST: array slots `coff + 1` through
/// `coff + b` of the table at handle `h` now read as the source registers,
/// every other key reads as before, and no other table moved.
pub open spec fn setlist_tables_post(
    s0: LuaState,
    s1: LuaState,
    h: int,
    a: int,
    b: int,
    coff: int,
) -> bool {
    &&& s1.nt() == s0.nt()
    &&& forall|h2: int| 0 <= h2 < s0.nt() && h2 != h ==> s1.tables@[h2] == s0.tables@[h2]
    &&& s1.table_at(h).arr.len() == s0.table_at(h).arr.len()
    &&& forall|j: int|
        1 <= j <= b ==> #[trigger] spec_table_get(s1.table_at(h), LuaVal::Integer((coff + j) as i64))
            == spec_reg(s0, a + j)
    &&& forall|k2: LuaVal|
        (match k2 {
            LuaVal::Integer(v) => !(coff + 1 <= v <= coff + b),
            _ => true,
        }) ==> #[trigger] spec_table_get(s1.table_at(h), k2) == spec_table_get(s0.table_at(h), k2)
}

/// SETLIST: bulk-assigns `b` consecutive registers above `a` into the
/// table at register `a`, at array positions `(c - 1) * 50 + 1` on; a `c`
/// of 0 takes the batch number from a following EXTRAARG word, advancing
/// the program counter over it.
pub open spec fn setlist_post(s0: LuaState, s1: LuaState, i: u32, r: Result<StepEvent, LuaError>) -> bool {
    let a = i.spec_a() as int;
    let b = i.spec_b() as int;
    let c = i.spec_c() as int;
    if !reg_ok(s0, a) {
        r == Err::<StepEvent, LuaError>(LuaError::StackOverflow) && unchanged(s0, s1)
    } else {
        match spec_reg(s0, a) {
            LuaVal::Table(h) => {
                if b > 0 && !reg_ok(s0, a + b) {
                    r == Err::<StepEvent, LuaError>(LuaError::StackOverflow) && unchanged(s0, s1)
                } else if c == 0 && s0.cur().pc >= code_of(s0).len() {
                    r == Err::<StepEvent, LuaError>(LuaError::BadOperand) && unchanged(s0, s1)
                } else {
                    let coff: int = if c > 0 {
                        (c - 1) * 50
                    } else {
                        (code_of(s0)[s0.cur().pc as int].spec_ax() - 1) * 50
                    };
                    &&& r == Ok::<StepEvent, LuaError>(StepEvent::Normal)
                    &&& s1.registry == s0.registry
                    &&& s1.closures@ == s0.closures@
                    &&& s1.stack@ == s0.stack@
                    &&& s1.base_ci@ == (if c == 0 {
                        s0.base_ci@.update(
                            s0.base_ci@.len() - 1,
                            CallInfo { pc: (s0.cur().pc + 1) as usize, ..s0.cur() },
                        )
                    } else {
                        s0.base_ci@
                    })
                    &&& setlist_tables_post(s0, s1, h, a, b, coff)
                }
            },
            _ => r == Err::<StepEvent, LuaError>(LuaError::TypeError) && unchanged(s0, s1),
        }
    }
}

/// CLOSURE: register `a` takes a closure freshly instantiated from nested
/// prototype `bx`, with one value captured per upvalue descriptor.
pub open spec fn closure_post(s0: LuaState, s1: LuaState, i: u32, r: Result<StepEvent, LuaError>) -> bool {
    let a = i.spec_a() as int;
    let bx = i.spec_bx() as int;
    if !reg_ok(s0, a) {
        r == Err::<StepEvent, LuaError>(LuaError::StackOverflow) && unchanged(s0, s1)
    } else if bx >= protos_of(s0).len() {
        r == Err::<StepEvent, LuaError>(LuaError::BadOperand) && unchanged(s0, s1)
    } else {
        let p = protos_of(s0)[bx];
        if !(forall|k: int| 0 <= k < p.upvalues.len() ==> capture_ok(s0, p, k)) {
            &&& (r == Err::<StepEvent, LuaError>(LuaError::StackOverflow) || r == Err::<
                StepEvent,
                LuaError,
            >(LuaError::BadOperand))
            &&& unchanged(s0, s1)
        } else {
            &&& r == Ok::<StepEvent, LuaError>(StepEvent::Normal)
            &&& s1.nc() == s0.nc() + 1
            &&& forall|h2: int| 0 <= h2 < s0.nc() ==> s1.closures@[h2] == s0.closures@[h2]
            &&& s1.closure_at(s0.nc()).proto == p
            &&& s1.closure_at(s0.nc()).native is None
            &&& s1.closure_at(s0.nc()).upvalues.len() == p.upvalues.len()
            &&& forall|k: int|
                0 <= k < p.upvalues.len() ==> s1.closure_at(s0.nc()).upvalues[k] == spec_capture(
                    s0,
                    p,
                    k,
                )
            &&& s1.tables@ == s0.tables@
            &&& s1.registry == s0.registry
            &&& s1.base_ci@ == s0.base_ci@
            &&& s1.stack@ == s0.stack@.update(s0.cur().base + 1 + a, LuaVal::Closure(s0.nc()))
        }
    }
}

/// RETURN maps postcall's outcome onto a step event.
pub open spec fn return_post(s0: LuaState, s1: LuaState, i: u32, r: Result<StepEvent, LuaError>) -> bool {
    let a = i.spec_a() as int;
    let b = i.spec_b() as int;
    &&& (r is Ok ==> r == Ok::<StepEvent, LuaError>(StepEvent::Normal))
    &&& postcall_post(
        s0,
        s1,
        a,
        b,
        match r {
            Ok(_) => Ok(()),
            Err(e) => Err(e),
        },
    )
}

/// The one-instruction transition relation of the engine, by opcode.
/// Opcodes outside the implemented subset change nothing and report
/// themselves unsupported.
pub open spec fn exec_post(s0: LuaState, s1: LuaState, i: u32, r: Result<StepEvent, LuaError>) -> bool {
    let op = i.spec_opcode();
    if op == crate::opcodes::OP_MOVE {
        move_post(s0, s1, i, r)
    } else if op == crate::opcodes::OP_LOADK {
        loadk_post(s0, s1, i, r)
    } else if op == crate::opcodes::OP_GETUPVAL {
        getupval_post(s0, s1, i, r)
    } else if op == crate::opcodes::OP_SETUPVAL {
        setupval_post(s0, s1, i, r)
    } else if op == crate::opcodes::OP_GETTABUP {
        gettabup_post(s0, s1, i, r)
    } else if op == crate::opcodes::OP_GETTABLE {
        gettable_post(s0, s1, i, r)
    } else if op == crate::opcodes::OP_SETTABLE {
        settable_post(s0, s1, i, r)
    } else if op == crate::opcodes::OP_NEWTABLE {
        newtable_post(s0, s1, i, r)
    } else if op == crate::opcodes::OP_ADD {
        add_post(s0, s1, i, r)
    } else if op == crate::opcodes::OP_CALL {
        precall_post(s0, s1, i.spec_a() as int, i.spec_b() as int, i.spec_c() as int, r)
    } else if op == crate::opcodes::OP_RETURN {
        return_post(s0, s1, i, r)
    } else if op == crate::opcodes::OP_SETLIST {
        setlist_post(s0, s1, i, r)
    } else if op == crate::opcodes::OP_CLOSURE {
        closure_post(s0, s1, i, r)
    } else {
        r == Err::<StepEvent, LuaError>(LuaError::UnsupportedOpcode(op)) && unchanged(s0, s1)
    }
}

} // verus!

verus! {

impl LuaState {
    /// Dispatches one fetched instruction, per `exec_post`.
    #[verifier::rlimit(60)]
    pub fn execute(&mut self, i: u32) -> (r: Result<StepEvent, LuaError>)
        requires
            old(self).wf(),
        ensures
            final(self).wf(),
            exec_post(*old(self), *final(self), i, r),
    {
        proof {
            assert(((i >> 6) & 0xff) < 256) by (bit_vector);
            assert(((i >> 23) & 0x1ff) < 512) by (bit_vector);
            assert(((i >> 14) & 0x1ff) < 512) by (bit_vector);
        }
        let op = i.opcode();
        if op == crate::opcodes::OP_MOVE {
            let (a, b, _c) = i.abc();
            let v = match self.get_register(b) {
                Ok(v) => v,
                Err(e) => { return Err(e); },
            };
            match self.set_register(a, v) {
                Ok(()) => Ok(StepEvent::Normal),
                Err(e) => Err(e),
            }
        } else if op == crate::opcodes::OP_LOADK {
            let (a, bx) = i.a_bx();
            let v = match self.get_const(bx) {
                Ok(v) => v,
                Err(e) => { return Err(e); },
            };
            match self.set_register(a, v) {
                Ok(()) => Ok(StepEvent::Normal),
                Err(e) => Err(e),
            }
        } else if op == crate::opcodes::OP_GETUPVAL {
            let (a, b, _c) = i.abc();
            let v = match self.get_upvalue(b) {
                Ok(v) => v,
                Err(e) => { return Err(e); },
            };
            proof {
                assert(val_ok(ups_of(*self)[b as int], self.nt(), self.nc()));
            }
            match self.set_register(a, v) {
                Ok(()) => Ok(StepEvent::Normal),
                Err(e) => Err(e),
            }
        } else if op == crate::opcodes::OP_SETUPVAL {
            let (a, b, _c) = i.abc();
            let v = match self.get_register(a) {
                Ok(v) => v,
                Err(e) => { return Err(e); },
            };
            match self.set_upvalue(b, v) {
                Ok(()) => Ok(StepEvent::Normal),
                Err(e) => Err(e),
            }
        } else if op == crate::opcodes::OP_GETTABUP {
            let (a, b, c) = i.abc();
            let uv = match self.get_upvalue(b) {
                Ok(v) => v,
                Err(e) => { return Err(e); },
            };
            let h: usize = match uv {
                LuaValue::Table(h) => h,
                _ => { return Err(LuaError::TypeError); },
            };
            proof {
                assert(val_ok(ups_of(*self)[b as int], self.nt(), self.nc()));
            }
            let key = match self.get_rk(c) {
                Ok(v) => v,
                Err(e) => { return Err(e); },
            };
            let v = self.get_table_value(h, &key);
            match self.set_register(a, v) {
                Ok(()) => Ok(StepEvent::Normal),
                Err(e) => Err(e),
            }
        } else if op == crate::opcodes::OP_GETTABLE {
            let (a, b, c) = i.abc();
            let tv = match self.get_register(b) {
                Ok(v) => v,
                Err(e) => { return Err(e); },
            };
            let h: usize = match tv {
                LuaValue::Table(h) => h,
                _ => { return Err(LuaError::TypeError); },
            };
            let key = match self.get_rk(c) {
                Ok(v) => v,
                Err(e) => { return Err(e); },
            };
            let v = self.get_table_value(h, &key);
            match self.set_register(a, v) {
                Ok(()) => Ok(StepEvent::Normal),
                Err(e) => Err(e),
            }
        } else if op == crate::opcodes::OP_SETTABLE {
            let (a, b, c) = i.abc();
            let tv = match self.get_register(a) {
                Ok(v) => v,
                Err(e) => { return Err(e); },
            };
            let h: usize = match tv {
                LuaValue::Table(h) => h,
                _ => { return Err(LuaError::TypeError); },
            };
            let key = match self.get_rk(b) {
                Ok(v) => v,
                Err(e) => { return Err(e); },
            };
            let value = match self.get_rk(c) {
                Ok(v) => v,
                Err(e) => { return Err(e); },
            };
            self.set_table_value(h, key, value);
            Ok(StepEvent::Normal)
        } else if op == crate::opcodes::OP_NEWTABLE {
            let (a, b, c) = i.abc();
            let len = self.stack.get_top();
            let base = self.get_base();
            if !(len > base && a < len - base - 1) {
                return Err(LuaError::StackOverflow);
            }
            let v = self.create_table(b, c);
            match self.set_register(a, v) {
                Ok(()) => Ok(StepEvent::Normal),
                Err(e) => {
                    proof {
                        assert(false);
                    }
                    Err(e)
                },
            }
        } else if op == crate::opcodes::OP_ADD {
            let (a, b, c) = i.abc();
            let vb = match self.get_rk(b) {
                Ok(v) => v,
                Err(e) => { return Err(e); },
            };
            let x: i64 = match vb {
                LuaValue::Integer(x) => x,
                _ => { return Err(LuaError::TypeError); },
            };
            let vc = match self.get_rk(c) {
                Ok(v) => v,
                Err(e) => { return Err(e); },
            };
            let y: i64 = match vc {
                LuaValue::Integer(y) => y,
                _ => { return Err(LuaError::TypeError); },
            };
            let sum: i64 = #[verifier::truncate] ((x as i128 + y as i128) as i64);
            match self.set_register(a, LuaValue::Integer(sum)) {
                Ok(()) => Ok(StepEvent::Normal),
                Err(e) => Err(e),
            }
        } else if op == crate::opcodes::OP_CALL {
            let (a, b, c) = i.abc();
            self.precall(a, b, c)
        } else if op == crate::opcodes::OP_RETURN {
            let (a, b, c) = i.abc();
            match self.postcall(a, b, c) {
                Ok(()) => Ok(StepEvent::Normal),
                Err(e) => Err(e),
            }
        } else if op == crate::opcodes::OP_SETLIST {
            self.exec_setlist(i)
        } else if op == crate::opcodes::OP_CLOSURE {
            let (a, bx) = i.a_bx();
            let len = self.stack.get_top();
            let base = self.get_base();
            if !(len > base && a < len - base - 1) {
                return Err(LuaError::StackOverflow);
            }
            let p = match self.get_subproto(bx) {
                Ok(p) => p,
                Err(e) => { return Err(e); },
            };
            let v = match self.load_proto(p) {
                Ok(v) => v,
                Err(e) => { return Err(e); },
            };
            match self.set_register(a, v) {
                Ok(()) => Ok(StepEvent::Normal),
                Err(e) => {
                    proof {
                        assert(false);
                    }
                    Err(e)
                },
            }
        } else {
            Err(LuaError::UnsupportedOpcode(op))
        }
    }

    /// The SETLIST instruction, split out: resolves the batch offset
    /// (through EXTRAARG when `c` is 0) and stores the `b` source registers
    /// into the table one by one.
    #[verifier::rlimit(60)]
    fn exec_setlist(&mut self, i: u32) -> (r: Result<StepEvent, LuaError>)
        requires
            old(self).wf(),
            i.spec_opcode() == crate::opcodes::OP_SETLIST,
        ensures
            final(self).wf(),
            setlist_post(*old(self), *final(self), i, r),
    {
        proof {
            assert(((i >> 6) & 0xff) < 256) by (bit_vector);
            assert(((i >> 23) & 0x1ff) < 512) by (bit_vector);
            assert(((i >> 14) & 0x1ff) < 512) by (bit_vector);
        }
        let (a, b, c) = i.abc();
        let tv = match self.get_register(a) {
            Ok(v) => v,
            Err(e) => { return Err(e); },
        };
        let h: usize = match tv {
            LuaValue::Table(h) => h,
            _ => { return Err(LuaError::TypeError); },
        };
        let len = self.stack.get_top();
        let base = self.get_base();
        if b > 0 && !(len > base && a + b < len - base - 1) {
            return Err(LuaError::StackOverflow);
        }
        let c_eff: usize;
        if c == 0 {
            match self.fetch() {
                Some(w) => {
                    proof {
                        assert((w >> 6) <= 0x3ffffff) by (bit_vector);
                    }
                    c_eff = w.ax();
                },
                None => { return Err(LuaError::BadOperand); },
            }
        } else {
            c_eff = c;
        }
        let coff: i64 = c_eff as i64 - 1;
        let coff: i64 = coff * 50;
        let ghost sm = *self;
        let ghost coffi: int = coff as int;
        proof {
            assert(sm.cur().base == old(self).cur().base);
            assert(sm.stack@ == old(self).stack@);
        }
        let mut j: usize = 1;
        while j <= b
            invariant
                sm.wf(),
                self.wf(),
                i.spec_opcode() == crate::opcodes::OP_SETLIST,
                a == i.spec_a(),
                b == i.spec_b(),
                a < 256,
                b < 512,
                1 <= j <= b + 1,
                (h as int) < sm.nt(),
                spec_reg(sm, a as int) == LuaVal::Table(h as int),
                b > 0 ==> sm.cur().base + 1 + a + b < sm.stack@.len(),
                coffi == coff,
                -50 <= coff <= 3355443100i64,
                self.stack@ == sm.stack@,
                self.base_ci@ == sm.base_ci@,
                self.closures@ == sm.closures@,
                self.registry == sm.registry,
                self.nt() == sm.nt(),
                forall|h2: int| 0 <= h2 < sm.nt() && h2 != h ==> self.tables@[h2] == sm.tables@[h2],
                self.table_at(h as int).arr.len() == sm.table_at(h as int).arr.len(),
                forall|jj: int|
                    1 <= jj < j ==> #[trigger] spec_table_get(
                        self.table_at(h as int),
                        LuaVal::Integer((coffi + jj) as i64),
                    ) == spec_reg(sm, a + jj),
                forall|k2: LuaVal|
                    (match k2 {
                        LuaVal::Integer(v) => !(coffi + 1 <= v < coffi + j),
                        _ => true,
                    }) ==> #[trigger] spec_table_get(self.table_at(h as int), k2)
                        == spec_table_get(sm.table_at(h as int), k2),
            decreases b + 1 - j,
        {
            let src = match self.get_register(a + j) {
                Ok(v) => v,
                Err(_) => {
                    proof {
                        assert(false);
                    }
                    return Err(LuaError::StackOverflow);
                },
            };
            let ghost tprev = self.table_at(h as int);
            let key = LuaValue::Integer(coff + j as i64);
            self.set_table_value(h, key, src);
            proof {
                crate::table::lemma_set_get(
                    tprev,
                    self.table_at(h as int),
                    LuaVal::Integer((coffi + j) as i64),
                    spec_reg(sm, a + j),
                );
            }
            j = j + 1;
        }
        Ok(StepEvent::Normal)
    }
}

} // verus!

verus! {

/// `s1` is `s0` with the active instruction fetched: the program counter
/// moved past it, nothing else touched.
pub open spec fn fetched(s0: LuaState, s1: LuaState) -> bool {
    let c = s0.cur();
    &&& s0.base_ci@.len() >= 1
    &&& c.pc < code_of(s0).len()
    &&& s1.registry == s0.registry
    &&& s1.tables@ == s0.tables@
    &&& s1.closures@ == s0.closures@
    &&& s1.stack@ == s0.stack@
    &&& s1.base_ci@ == s0.base_ci@.update(
        s0.base_ci@.len() - 1,
        CallInfo { pc: (c.pc + 1) as usize, ..c },
    )
}

/// One engine step from `s0` to `s1` reporting `r`: the active instruction
/// is fetched and then dispatched per `exec_post`.
pub open spec fn stepped_with(s0: LuaState, s1: LuaState, r: Result<StepEvent, LuaError>) -> bool {
    exists|sm: LuaState|
        #[trigger] fetched(s0, sm) && exec_post(sm, s1, code_of(s0)[s0.cur().pc as int], r)
}

/// `s1` is reachable from `s0` by exactly `n` ordinary engine steps.
pub open spec fn runs_to(s0: LuaState, s1: LuaState, n: nat) -> bool
    decreases n,
{
    if n == 0 {
        unchanged(s0, s1)
    } else {
        exists|sm: LuaState|
            runs_to(s0, sm, (n - 1) as nat) && #[trigger] stepped_with(
                sm,
                s1,
                Ok(StepEvent::Normal),
            )
    }
}

/// What a run of at most `fuel` steps starting from `s0` reports, and how
/// it relates `s1` to `s0`: a chain of ordinary steps ending with the
/// frame's code exhausted (halted), the budget spent, a native call, or an
/// erring step.
pub open spec fn run_outcome(
    s0: LuaState,
    s1: LuaState,
    fuel: nat,
    r: Result<RunResult, LuaError>,
) -> bool {
    match r {
        Ok(RunResult::Halted) => exists|n: nat, sm: LuaState|
            {
                &&& n < fuel
                &&& #[trigger] runs_to(s0, sm, n)
                &&& unchanged(sm, s1)
                &&& s1.cur().pc >= code_of(s1).len()
            },
        Ok(RunResult::OutOfFuel) => runs_to(s0, s1, fuel),
        Ok(RunResult::NativeCall(id, b)) => exists|n: nat, sm: LuaState|
            n < fuel && #[trigger] runs_to(s0, sm, n) && stepped_with(
                sm,
                s1,
                Ok(StepEvent::NativeCall(id, b)),
            ),
        Err(e) => exists|n: nat, sm: LuaState|
            n < fuel && #[trigger] runs_to(s0, sm, n) && stepped_with(sm, s1, Err(e)),
    }
}

/// `s1` is `s0` with a frame prepared for the closure `nargs` slots below
/// the top: the frame's base is the closure's own slot and the stack top
/// is the frame's window top.
pub open spec fn prepared(s0: LuaState, s1: LuaState, nargs: int) -> bool {
    let slot = s0.stackv().len() - 1 - nargs;
    let v = s0.stackv()[slot];
    let mss = s0.closure_at(v->Closure_0).proto.max_stack_size as int;
    &&& s0.stackv().len() > nargs
    &&& v is Closure
    &&& s1.registry == s0.registry
    &&& s1.tables@ == s0.tables@
    &&& s1.closures@ == s0.closures@
    &&& s1.base_ci@ == s0.base_ci@.push(
        CallInfo {
            func: v->Closure_0 as usize,
            pc: 0,
            base: slot as usize,
            top: (slot + 1 + mss) as usize,
            nresults: 0,
        },
    )
    &&& s1.stack@ == stack_with_top(s0.stack@, slot + 1 + mss)
}

/// Why a call could not be prepared, with nothing moved: no closure slot
/// below the arguments, a non-closure callee, or a window top beyond the
/// machine's address range.
pub open spec fn prepare_failed(s0: LuaState, s1: LuaState, nargs: int, e: LuaError) -> bool {
    &&& unchanged(s0, s1)
    &&& if s0.stackv().len() <= nargs {
        e == LuaError::StackOverflow
    } else {
        let slot = s0.stackv().len() - 1 - nargs;
        let v = s0.stackv()[slot];
        if !(v is Closure) {
            e == LuaError::TypeError
        } else {
            e == LuaError::StackOverflow && slot + 1 + s0.closure_at(
                v->Closure_0,
            ).proto.max_stack_size > usize::MAX
        }
    }
}

impl LuaState {
    /// Pushes a frame for the closure sitting `nargs` slots below the
    /// stack top, with its arguments above it: the frame's base is the
    /// closure's own slot, and the stack top moves to the frame's window
    /// top.
    pub fn prepare_call(&mut self, nargs: usize) -> (r: Result<(), LuaError>)
        requires
            old(self).wf(),
        ensures
            final(self).wf(),
            match r {
                Ok(()) => prepared(*old(self), *final(self), nargs as int),
                Err(e) => prepare_failed(*old(self), *final(self), nargs as int, e),
            },
    {
        let top = self.stack.get_top();
        if top == 0 || top - 1 < nargs {
            return Err(LuaError::StackOverflow);
        }
        let slot = top - 1 - nargs;
        let v = self.stack.get(slot);
        let h: usize = match v {
            LuaValue::Closure(h) => h,
            _ => { return Err(LuaError::TypeError); },
        };
        proof {
            assert(val_ok(self.stackv()[slot as int], self.nt(), self.nc()));
        }
        let mss = self.closures[h].proto.max_stack_size;
        if slot > usize::MAX - 1 - mss as usize {
            return Err(LuaError::StackOverflow);
        }
        let ci = CallInfo { func: h, pc: 0, base: slot, top: slot + 1 + mss as usize, nresults: 0 };
        self.set_top(slot + 1 + mss as usize);
        self.base_ci.push(ci);
        proof {
            assert(self.stack@ =~= stack_with_top(old(self).stack@, slot + 1 + mss));
        }
        Ok(())
    }

    /// Prepares a call as `prepare_call` does, then runs the
    /// fetch-dispatch loop for at most `fuel` instructions: the final
    /// state is the prepared one carried through a chain of engine steps,
    /// per `run_outcome`.
    pub fn internal_call(&mut self, nargs: usize, fuel: usize) -> (r: Result<RunResult, LuaError>)
        requires
            old(self).wf(),
        ensures
            final(self).wf(),
            match r {
                Ok(rr) => exists|sp: LuaState|
                    #[trigger] prepared(*old(self), sp, nargs as int) && run_outcome(
                        sp,
                        *final(self),
                        fuel as nat,
                        Ok(rr),
                    ),
                Err(e) => prepare_failed(*old(self), *final(self), nargs as int, e) || (exists|
                    sp: LuaState,
                |
                    #[trigger] prepared(*old(self), sp, nargs as int) && run_outcome(
                        sp,
                        *final(self),
                        fuel as nat,
                        Err(e),
                    )),
            },
    {
        match self.prepare_call(nargs) {
            Ok(()) => {
                let ghost sp = *self;
                let r = lua_vm_execute(self, fuel);
                proof {
                    assert(prepared(*old(self), sp, nargs as int));
                }
                r
            },
            Err(e) => Err(e),
        }
    }

    /// Loads and runs the closure below `nargs` arguments; the wanted
    /// result count is recorded by the caller convention and otherwise
    /// unused here.
    pub fn call(&mut self, nargs: usize, _nresults: isize, fuel: usize) -> (r: Result<
        RunResult,
        LuaError,
    >)
        requires
            old(self).wf(),
        ensures
            final(self).wf(),
            match r {
                Ok(rr) => exists|sp: LuaState|
                    #[trigger] prepared(*old(self), sp, nargs as int) && run_outcome(
                        sp,
                        *final(self),
                        fuel as nat,
                        Ok(rr),
                    ),
                Err(e) => prepare_failed(*old(self), *final(self), nargs as int, e) || (exists|
                    sp: LuaState,
                |
                    #[trigger] prepared(*old(self), sp, nargs as int) && run_outcome(
                        sp,
                        *final(self),
                        fuel as nat,
                        Err(e),
                    )),
            },
    {
        self.internal_call(nargs, fuel)
    }
}

/// The fetch-decode-dispatch loop: runs the active frame (and whatever it
/// calls) until the frame stack's code is exhausted, an error surfaces, a
/// native call needs the host, or `fuel` instructions have run.  The final
/// state is the initial one carried through a chain of engine steps, each
/// obeying `exec_post`, as `run_outcome` spells out.
pub fn lua_vm_execute(l: &mut LuaState, fuel: usize) -> (r: Result<RunResult, LuaError>)
    requires
        old(l).wf(),
    ensures
        final(l).wf(),
        run_outcome(*old(l), *final(l), fuel as nat, r),
{
    let mut k: usize = 0;
    while k < fuel
        invariant
            l.wf(),
            k <= fuel,
            runs_to(*old(l), *l, k as nat),
        decreases fuel - k,
    {
        let ghost prev = *l;
        match l.fetch() {
            Some(inst) => {
                let ghost mid = *l;
                proof {
                    assert(fetched(prev, mid));
                    assert(inst == code_of(prev)[prev.cur().pc as int]);
                }
                match l.execute(inst) {
                    Ok(StepEvent::Normal) => {
                        proof {
                            assert(stepped_with(prev, *l, Ok(StepEvent::Normal)));
                            assert(runs_to(*old(l), *l, (k + 1) as nat));
                        }
                    },
                    Ok(StepEvent::NativeCall(id, b)) => {
                        proof {
                            assert(runs_to(*old(l), prev, k as nat));
                            assert(stepped_with(prev, *l, Ok(StepEvent::NativeCall(id, b))));
                            assert(run_outcome(
                                *old(l),
                                *l,
                                fuel as nat,
                                Ok(RunResult::NativeCall(id, b)),
                            ));
                        }
                        return Ok(RunResult::NativeCall(id, b));
                    },
                    Err(e) => {
                        proof {
                            assert(runs_to(*old(l), prev, k as nat));
                            assert(stepped_with(prev, *l, Err(e)));
                            assert(run_outcome(*old(l), *l, fuel as nat, Err(e)));
                        }
                        return Err(e);
                    },
                }
            },
            None => {
                proof {
                    assert(unchanged(prev, *l));
                }
                return Ok(RunResult::Halted);
            },
        }
        k = k + 1;
    }
    Ok(RunResult::OutOfFuel)
}

} // verus!
