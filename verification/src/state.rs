//! The interpreter state: one flat value stack, a stack of call frames over
//! it, and the arenas that give tables and closures shared, aliasable
//! identity.  A `LuaValue::Table(h)` or `LuaValue::Closure(h)` is a handle
//! into these arenas; mutation through one alias is visible through all.

use vstd::prelude::*;

use std::rc::Rc;

use crate::LuaError;
use crate::chunk::ConstVal;
use crate::chunk::ConstantValue;
use crate::chunk::ConstantView;
use crate::chunk::Prototype;
use crate::constants::LUA_RIDX_GLOBALS;
use crate::function::ClosureView;
use crate::function::LuaClosure;
use crate::stack::LuaStack;
use crate::table::LuaTable;
use crate::table::TableView;
use crate::table::pairs_updated_shape;
use crate::table::spec_table_get;
use crate::table::table_set_post;
use crate::value::LuaVal;
use crate::value::LuaValue;

verus! {

/// One active invocation: the closure being run, a program counter into its
/// code, the base and cached top of its register window, and the result
/// count its caller asked for.
#[derive(Clone, Copy, Debug, PartialEq, Eq, Structural)]
pub struct CallInfo {
    pub func: usize,
    pub pc: usize,
    pub base: usize,
    pub top: usize,
    pub nresults: i64,
}

impl CallInfo {
    /// A frame for the closure at handle `func`, whose window starts at
    /// `base` and spans `max_stack_size` registers above the closure slot.
    pub fn new(func: usize, base: usize, max_stack_size: u8) -> (r: CallInfo)
        requires
            base + 1 + max_stack_size <= usize::MAX,
        ensures
            r == (CallInfo {
                func,
                pc: 0,
                base,
                top: (base + 1 + max_stack_size) as usize,
                nresults: 0,
            }),
    {
        CallInfo { func, pc: 0, base, top: base + 1 + max_stack_size as usize, nresults: 0 }
    }

    /// The window's base.
    pub fn get_base(&self) -> (r: usize)
        ensures
            r == self.base,
    {
        self.base
    }

    /// The window's cached top.
    pub fn get_top(&self) -> (r: usize)
        ensures
            r == self.top,
    {
        self.top
    }
}

/// A value is closed under the arenas: any handle it carries points at an
/// existing table or closure.
pub open spec fn val_ok(v: LuaVal, nt: int, nc: int) -> bool {
    match v {
        LuaVal::Table(h) => 0 <= h < nt,
        LuaVal::Closure(h) => 0 <= h < nc,
        _ => true,
    }
}

/// Every value of the slice is closed under the arenas.
pub open spec fn vals_ok(s: Seq<LuaVal>, nt: int, nc: int) -> bool {
    forall|i: int| 0 <= i < s.len() ==> val_ok(#[trigger] s[i], nt, nc)
}

/// Every value a table holds is closed under the arenas.
pub open spec fn table_ok(t: TableView, nt: int, nc: int) -> bool {
    &&& vals_ok(t.arr, nt, nc)
    &&& forall|i: int|
        0 <= i < t.pairs.len() ==> val_ok((#[trigger] t.pairs[i]).0, nt, nc) && val_ok(
            t.pairs[i].1,
            nt,
            nc,
        )
}

/// Every upvalue a closure holds is closed under the arenas.
pub open spec fn closure_ok(c: ClosureView, nt: int, nc: int) -> bool {
    vals_ok(c.upvalues, nt, nc)
}

/// The runtime constant a constant-pool entry resolves to: an absent
/// constant reads as nil, the rest are copied by value.
pub open spec fn const_to_val(c: ConstantView) -> LuaVal {
    match c.v {
        ConstVal::Nil => LuaVal::Nil,
        ConstVal::Boolean(b) => LuaVal::Boolean(b != 0),
        ConstVal::Number(n) => LuaVal::Number(n),
        ConstVal::Integer(i) => LuaVal::Integer(i),
        ConstVal::Str(s) => LuaVal::Str(s),
    }
}

/// The whole interpreter state.
pub struct LuaState {
    /// Handle of the registry table; its array slot `LUA_RIDX_GLOBALS`
    /// holds the global-variable table.
    pub registry: usize,
    pub stack: LuaStack,
    pub base_ci: Vec<CallInfo>,
    pub tables: Vec<LuaTable>,
    pub closures: Vec<LuaClosure>,
}

impl LuaState {
    /// Number of allocated tables.
    pub open spec fn nt(self) -> int {
        self.tables@.len() as int
    }

    /// Number of allocated closures.
    pub open spec fn nc(self) -> int {
        self.closures@.len() as int
    }

    /// Model of the table at handle `h`.
    pub open spec fn table_at(self, h: int) -> TableView {
        self.tables@[h]@
    }

    /// Model of the closure at handle `h`.
    pub open spec fn closure_at(self, h: int) -> ClosureView {
        self.closures@[h]@
    }

    /// The call-frame stack, innermost frame last.
    pub open spec fn frames(self) -> Seq<CallInfo> {
        self.base_ci@
    }

    /// The active frame.
    pub open spec fn cur(self) -> CallInfo {
        self.base_ci@.last()
    }

    /// Model of the value stack.
    pub open spec fn stackv(self) -> Seq<LuaVal> {
        self.stack@
    }

    /// Well-formedness: at least the root frame exists, the registry handle
    /// is allocated, and every handle reachable from the stack, a table, a
    /// closure or a frame points at an allocated arena slot.
    pub open spec fn wf(self) -> bool {
        &&& self.base_ci@.len() >= 1
        &&& (self.registry as int) < self.nt()
        &&& vals_ok(self.stack@, self.nt(), self.nc())
        &&& forall|h: int| 0 <= h < self.nt() ==> (#[trigger] self.tables@[h]).wf()
        &&& forall|h: int|
            0 <= h < self.nt() ==> table_ok(#[trigger] self.tables@[h]@, self.nt(), self.nc())
        &&& forall|h: int|
            0 <= h < self.nc() ==> closure_ok(#[trigger] self.closures@[h]@, self.nt(), self.nc())
        &&& forall|i: int|
            0 <= i < self.base_ci@.len() ==> (#[trigger] self.base_ci@[i]).func < self.nc()
    }

    /// Everything but the value stack and the frame stack is unchanged.
    pub open spec fn same_arenas(self, other: LuaState) -> bool {
        &&& other.registry == self.registry
        &&& other.tables@ == self.tables@
        &&& other.closures@ == self.closures@
    }

    /// A fresh state: registry and empty global table allocated, the empty
    /// root closure anchoring one root frame, and a stack of one nil slot.
    pub fn new() -> (r: LuaState)
        ensures
            r.wf(),
            r.stackv().len() == 1,
            r.stackv()[0] == LuaVal::Nil,
            r.frames().len() == 1,
            r.cur() == (CallInfo { func: 0, pc: 0, base: 0, top: 0, nresults: 0 }),
            r.nt() == 2,
            r.nc() == 1,
            r.registry == 0,
            r.table_at(0).arr.len() == 4,
            spec_table_get(r.table_at(0), LuaVal::Integer(LUA_RIDX_GLOBALS as i64))
                == LuaVal::Table(1),
            r.table_at(1).arr.len() == 1,
            r.table_at(1).pairs.len() == 0,
            r.closure_at(0).native is None,
            r.closure_at(0).proto.code.len() == 0,
    {
        let mut registry_table = LuaTable::new(3, 0);
        registry_table.set_array(LUA_RIDX_GLOBALS, LuaValue::Table(1));
        let globals = LuaTable::new(0, 0);
        let mut tables: Vec<LuaTable> = Vec::new();
        tables.push(registry_table);
        tables.push(globals);
        let mut closures: Vec<LuaClosure> = Vec::new();
        closures.push(LuaClosure::new_empty());
        let mut base_ci: Vec<CallInfo> = Vec::new();
        base_ci.push(CallInfo { func: 0, pc: 0, base: 0, top: 0, nresults: 0 });
        let r = LuaState { registry: 0, stack: LuaStack::new(30), base_ci, tables, closures };
        proof {
            assert(r.stackv().len() == 1);
            assert(r.table_at(0).arr[2] == LuaVal::Table(1));
            assert forall|h: int| 0 <= h < r.nt() implies table_ok(
                #[trigger] r.tables@[h]@,
                r.nt(),
                r.nc(),
            ) by {
                assert(r.table_at(h).pairs.len() == 0);
            }
        }
        r
    }

    /// The active frame, as a value.
    pub fn current(&self) -> (r: CallInfo)
        requires
            self.frames().len() >= 1,
        ensures
            r == self.cur(),
    {
        self.base_ci[self.base_ci.len() - 1]
    }

    /// The active frame's base.
    pub fn get_base(&self) -> (r: usize)
        requires
            self.frames().len() >= 1,
        ensures
            r == self.cur().base,
    {
        self.current().base
    }

    /// Sets the value-stack top, popping or nil-filling as needed.
    pub fn set_top(&mut self, top: usize)
        requires
            old(self).wf(),
        ensures
            final(self).wf(),
            old(self).same_arenas(*final(self)),
            final(self).frames() == old(self).frames(),
            final(self).stackv().len() == top,
            forall|i: int|
                0 <= i < top && i < old(self).stackv().len() ==> final(self).stackv()[i] == old(
                    self,
                ).stackv()[i],
            forall|i: int|
                old(self).stackv().len() <= i < top ==> final(self).stackv()[i] == LuaVal::Nil,
    {
        self.stack.set_top(top);
    }

    /// Fetches the instruction the active frame's program counter points
    /// at, and advances the counter; yields nothing when the frame's code
    /// is exhausted.
    pub fn fetch(&mut self) -> (r: Option<u32>)
        requires
            old(self).wf(),
        ensures
            final(self).wf(),
            old(self).same_arenas(*final(self)),
            final(self).stackv() == old(self).stackv(),
            ({
                let c = old(self).cur();
                let code = old(self).closure_at(c.func as int).proto.code;
                if c.pc < code.len() {
                    r == Some(code[c.pc as int]) && final(self).frames() == old(self).frames().update(
                        old(self).frames().len() - 1,
                        CallInfo { pc: (c.pc + 1) as usize, ..c },
                    )
                } else {
                    r == None::<u32> && final(self).frames() == old(self).frames()
                }
            }),
    {
        let ci = self.base_ci.len() - 1;
        let f = self.base_ci[ci];
        let n = self.closures[f.func].proto.code.len();
        if f.pc < n {
            let inst = self.closures[f.func].proto.code[f.pc];
            self.base_ci.set(ci, CallInfo { pc: f.pc + 1, ..f });
            proof {
                assert(final(self).frames() =~= old(self).frames().update(
                    old(self).frames().len() - 1,
                    CallInfo { pc: (old(self).cur().pc + 1) as usize, ..old(self).cur() },
                ));
            }
            Some(inst)
        } else {
            None
        }
    }

    /// Reads register `index` of the active frame: stack slot
    /// `base + 1 + index`.
    pub fn get_register(&self, index: usize) -> (r: Result<LuaValue, LuaError>)
        requires
            self.frames().len() >= 1,
        ensures
            match r {
                Ok(v) => self.cur().base + 1 + index < self.stackv().len()
                    && v@ == self.stackv()[self.cur().base + 1 + index]
                    && (self.wf() ==> val_ok(v@, self.nt(), self.nc())),
                Err(e) => self.cur().base + 1 + index >= self.stackv().len() && e
                    == LuaError::StackOverflow,
            },
    {
        let base = self.get_base();
        let len = self.stack.get_top();
        if len > base && index < len - base - 1 {
            let v = self.stack.get(base + 1 + index);
            proof {
                if self.wf() {
                    assert(val_ok(self.stackv()[self.cur().base + 1 + index], self.nt(), self.nc()));
                }
            }
            Ok(v)
        } else {
            Err(LuaError::StackOverflow)
        }
    }

    /// Reads stack slot `base + index`; slot `base + 0` holds the frame's
    /// own closure.
    pub fn get_value(&self, index: usize) -> (r: Result<LuaValue, LuaError>)
        requires
            self.frames().len() >= 1,
        ensures
            match r {
                Ok(v) => self.cur().base + index < self.stackv().len()
                    && v@ == self.stackv()[self.cur().base + index],
                Err(e) => self.cur().base + index >= self.stackv().len() && e
                    == LuaError::StackOverflow,
            },
    {
        let base = self.get_base();
        let len = self.stack.get_top();
        if len > base && index < len - base {
            Ok(self.stack.get(base + index))
        } else {
            Err(LuaError::StackOverflow)
        }
    }

    /// Writes register `index` of the active frame.
    pub fn set_register(&mut self, index: usize, value: LuaValue) -> (r: Result<(), LuaError>)
        requires
            old(self).wf(),
            val_ok(value@, old(self).nt(), old(self).nc()),
        ensures
            final(self).wf(),
            old(self).same_arenas(*final(self)),
            final(self).frames() == old(self).frames(),
            match r {
                Ok(()) => old(self).cur().base + 1 + index < old(self).stackv().len()
                    && final(self).stackv() == old(self).stackv().update(
                    old(self).cur().base + 1 + index,
                    value@,
                ),
                Err(e) => old(self).cur().base + 1 + index >= old(self).stackv().len() && e
                    == LuaError::StackOverflow && final(self).stackv() == old(self).stackv(),
            },
    {
        let base = self.get_base();
        let len = self.stack.get_top();
        if len > base && index < len - base - 1 {
            self.stack.set(base + 1 + index, value);
            Ok(())
        } else {
            Err(LuaError::StackOverflow)
        }
    }

    /// Writes stack slot `base + index`.
    pub fn set_value(&mut self, index: usize, value: LuaValue) -> (r: Result<(), LuaError>)
        requires
            old(self).wf(),
            val_ok(value@, old(self).nt(), old(self).nc()),
        ensures
            final(self).wf(),
            old(self).same_arenas(*final(self)),
            final(self).frames() == old(self).frames(),
            match r {
                Ok(()) => old(self).cur().base + index < old(self).stackv().len()
                    && final(self).stackv() == old(self).stackv().update(
                    old(self).cur().base + index,
                    value@,
                ),
                Err(e) => old(self).cur().base + index >= old(self).stackv().len() && e
                    == LuaError::StackOverflow && final(self).stackv() == old(self).stackv(),
            },
    {
        let base = self.get_base();
        let len = self.stack.get_top();
        if len > base && index < len - base {
            self.stack.set(base + index, value);
            Ok(())
        } else {
            Err(LuaError::StackOverflow)
        }
    }

    /// Resolves constant `index` of the active closure's pool to a runtime
    /// value.
    pub fn get_const(&self, index: usize) -> (r: Result<LuaValue, LuaError>)
        requires
            self.wf(),
        ensures
            ({
                let ks = self.closure_at(self.cur().func as int).proto.constants;
                match r {
                    Ok(v) => index < ks.len() && v@ == const_to_val(ks[index as int]) && val_ok(
                        v@,
                        self.nt(),
                        self.nc(),
                    ),
                    Err(e) => index >= ks.len() && e == LuaError::BadOperand,
                }
            }),
    {
        let f = self.current();
        let n = self.closures[f.func].proto.constants.len();
        if index < n {
            match &self.closures[f.func].proto.constants[index].const_value {
                ConstantValue::Nil => Ok(LuaValue::Nil),
                ConstantValue::Boolean(b) => Ok(LuaValue::Boolean(*b != 0)),
                ConstantValue::Number(x) => Ok(LuaValue::Number(*x)),
                ConstantValue::Integer(i) => Ok(LuaValue::Integer(*i)),
                ConstantValue::ShortStr(s) => Ok(LuaValue::Str(s.value.clone())),
            }
        } else {
            Err(LuaError::BadOperand)
        }
    }

    /// Resolves an RK operand: a value of 256 or more addresses the
    /// constant pool at `operand - 256`, anything below addresses a
    /// register.
    pub fn get_rk(&self, index: usize) -> (r: Result<LuaValue, LuaError>)
        requires
            self.wf(),
        ensures
            ({
                let ks = self.closure_at(self.cur().func as int).proto.constants;
                match r {
                    Ok(v) => (if index > 0xff {
                        index - 0x100 < ks.len() && v@ == const_to_val(ks[index - 0x100])
                    } else {
                        self.cur().base + 1 + index < self.stackv().len()
                            && v@ == self.stackv()[self.cur().base + 1 + index]
                    }) && val_ok(v@, self.nt(), self.nc()),
                    Err(e) => if index > 0xff {
                        index - 0x100 >= ks.len() && e == LuaError::BadOperand
                    } else {
                        self.cur().base + 1 + index >= self.stackv().len() && e
                            == LuaError::StackOverflow
                    },
                }
            }),
    {
        if index > 0xff {
            self.get_const(index - 0x100)
        } else {
            self.get_register(index)
        }
    }
}

} // verus!

verus! {

/// Growing the arenas keeps a value closed.
pub proof fn lemma_vals_ok_mono(s: Seq<LuaVal>, nt: int, nc: int, nt2: int, nc2: int)
    requires
        vals_ok(s, nt, nc),
        nt <= nt2,
        nc <= nc2,
    ensures
        vals_ok(s, nt2, nc2),
{
    assert forall|i: int| 0 <= i < s.len() implies val_ok(#[trigger] s[i], nt2, nc2) by {
        assert(val_ok(s[i], nt, nc));
    }
}

/// Growing the arenas keeps a table closed.
pub proof fn lemma_table_ok_mono(t: TableView, nt: int, nc: int, nt2: int, nc2: int)
    requires
        table_ok(t, nt, nc),
        nt <= nt2,
        nc <= nc2,
    ensures
        table_ok(t, nt2, nc2),
{
    lemma_vals_ok_mono(t.arr, nt, nc, nt2, nc2);
    assert forall|i: int|
        0 <= i < t.pairs.len() implies val_ok((#[trigger] t.pairs[i]).0, nt2, nc2) && val_ok(
        t.pairs[i].1,
        nt2,
        nc2,
    ) by {
        assert(val_ok(t.pairs[i].0, nt, nc) && val_ok(t.pairs[i].1, nt, nc));
    }
}

/// Growing the arenas keeps a closure closed.
pub proof fn lemma_closure_ok_mono(c: ClosureView, nt: int, nc: int, nt2: int, nc2: int)
    requires
        closure_ok(c, nt, nc),
        nt <= nt2,
        nc <= nc2,
    ensures
        closure_ok(c, nt2, nc2),
{
    lemma_vals_ok_mono(c.upvalues, nt, nc, nt2, nc2);
}

/// What a closed table yields is itself closed.
pub proof fn lemma_table_get_ok(t: TableView, nt: int, nc: int, k: LuaVal)
    requires
        table_ok(t, nt, nc),
    ensures
        val_ok(spec_table_get(t, k), nt, nc),
{
    crate::table::lemma_assoc_find_member(t.pairs, k);
}

impl LuaState {
    /// Pushes one value on the value stack.
    pub fn push(&mut self, value: LuaValue)
        requires
            old(self).wf(),
            val_ok(value@, old(self).nt(), old(self).nc()),
        ensures
            final(self).wf(),
            old(self).same_arenas(*final(self)),
            final(self).frames() == old(self).frames(),
            final(self).stackv() == old(self).stackv().push(value@),
    {
        self.stack.push(value);
    }

    /// Pops the topmost value off the value stack.
    pub fn pop_value(&mut self) -> (r: LuaValue)
        requires
            old(self).wf(),
            old(self).stackv().len() > 0,
        ensures
            final(self).wf(),
            old(self).same_arenas(*final(self)),
            final(self).frames() == old(self).frames(),
            final(self).stackv() == old(self).stackv().drop_last(),
            r@ == old(self).stackv().last(),
            val_ok(r@, final(self).nt(), final(self).nc()),
    {
        self.stack.pop()
    }

    /// Allocates a fresh, empty table sized by the two hints and hands back
    /// the only value that aliases it.  The handle is new: no value held
    /// anywhere in the old state compares equal to the result.
    pub fn create_table(&mut self, array_size: usize, hash_size: usize) -> (r: LuaValue)
        requires
            old(self).wf(),
            array_size < usize::MAX,
        ensures
            final(self).wf(),
            r@ == LuaVal::Table(old(self).nt()),
            final(self).nt() == old(self).nt() + 1,
            forall|h: int| 0 <= h < old(self).nt() ==> final(self).tables@[h] == old(self).tables@[h],
            final(self).table_at(old(self).nt()).arr.len() == array_size + 1,
            forall|i: int|
                0 <= i <= array_size ==> final(self).table_at(old(self).nt()).arr[i] == LuaVal::Nil,
            final(self).table_at(old(self).nt()).pairs.len() == 0,
            final(self).closures@ == old(self).closures@,
            final(self).stackv() == old(self).stackv(),
            final(self).frames() == old(self).frames(),
            final(self).registry == old(self).registry,
    {
        let h = self.tables.len();
        let t = LuaTable::new(array_size, hash_size);
        self.tables.push(t);
        proof {
            let nt2 = self.nt();
            let nc2 = self.nc();
            lemma_vals_ok_mono(self.stack@, old(self).nt(), old(self).nc(), nt2, nc2);
            assert forall|h2: int| 0 <= h2 < nt2 implies (#[trigger] self.tables@[h2]).wf()
                && table_ok(self.tables@[h2]@, nt2, nc2) by {
                if h2 < old(self).nt() {
                    assert(self.tables@[h2] == old(self).tables@[h2]);
                    lemma_table_ok_mono(
                        old(self).tables@[h2]@,
                        old(self).nt(),
                        old(self).nc(),
                        nt2,
                        nc2,
                    );
                }
            }
            assert forall|h2: int| 0 <= h2 < nc2 implies closure_ok(
                #[trigger] self.closures@[h2]@,
                nt2,
                nc2,
            ) by {
                lemma_closure_ok_mono(self.closures@[h2]@, old(self).nt(), old(self).nc(), nt2, nc2);
            }
        }
        LuaValue::Table(h)
    }

    /// Wraps a freshly parsed prototype as a closure value with no captured
    /// upvalues, allocating it in the closure arena.
    pub fn new_lua_closure(&mut self, proto: Prototype) -> (r: LuaValue)
        requires
            old(self).wf(),
        ensures
            final(self).wf(),
            r@ == LuaVal::Closure(old(self).nc()),
            final(self).nc() == old(self).nc() + 1,
            forall|h: int|
                0 <= h < old(self).nc() ==> final(self).closures@[h] == old(self).closures@[h],
            final(self).closure_at(old(self).nc()).proto == proto@,
            final(self).closure_at(old(self).nc()).native is None,
            final(self).closure_at(old(self).nc()).upvalues.len() == 0,
            final(self).tables@ == old(self).tables@,
            final(self).stackv() == old(self).stackv(),
            final(self).frames() == old(self).frames(),
            final(self).registry == old(self).registry,
    {
        let h = self.closures.len();
        let c = LuaClosure::new(Rc::new(proto));
        self.closures.push(c);
        proof {
            self.lemma_wf_after_closure_push(*old(self));
        }
        LuaValue::Closure(h)
    }

    /// Wraps a host-registered native function, named by its identifier, as
    /// a closure value.
    pub fn new_native_closure(&mut self, id: u32) -> (r: LuaValue)
        requires
            old(self).wf(),
        ensures
            final(self).wf(),
            r@ == LuaVal::Closure(old(self).nc()),
            final(self).nc() == old(self).nc() + 1,
            forall|h: int|
                0 <= h < old(self).nc() ==> final(self).closures@[h] == old(self).closures@[h],
            final(self).closure_at(old(self).nc()).native == Some(id),
            final(self).closure_at(old(self).nc()).upvalues.len() == 0,
            final(self).tables@ == old(self).tables@,
            final(self).stackv() == old(self).stackv(),
            final(self).frames() == old(self).frames(),
            final(self).registry == old(self).registry,
    {
        let h = self.closures.len();
        let c = LuaClosure::new_native(id);
        self.closures.push(c);
        proof {
            self.lemma_wf_after_closure_push(*old(self));
        }
        LuaValue::Closure(h)
    }

    /// After pushing one closed closure, the whole state is still closed.
    pub(crate) proof fn lemma_wf_after_closure_push(&self, s0: LuaState)
        requires
            s0.wf(),
            self.tables@ == s0.tables@,
            self.stack@ == s0.stack@,
            self.base_ci@ == s0.base_ci@,
            self.registry == s0.registry,
            self.closures@.len() == s0.closures@.len() + 1,
            forall|h: int| 0 <= h < s0.nc() ==> self.closures@[h] == s0.closures@[h],
            closure_ok(self.closures@[s0.nc()]@, s0.nt(), s0.nc()),
        ensures
            self.wf(),
    {
        let nt2 = self.nt();
        let nc2 = self.nc();
        lemma_vals_ok_mono(self.stack@, s0.nt(), s0.nc(), nt2, nc2);
        assert forall|h2: int| 0 <= h2 < nt2 implies (#[trigger] self.tables@[h2]).wf() && table_ok(
            self.tables@[h2]@,
            nt2,
            nc2,
        ) by {
            lemma_table_ok_mono(s0.tables@[h2]@, s0.nt(), s0.nc(), nt2, nc2);
        }
        assert forall|h2: int| 0 <= h2 < nc2 implies closure_ok(
            #[trigger] self.closures@[h2]@,
            nt2,
            nc2,
        ) by {
            if h2 < s0.nc() {
                lemma_closure_ok_mono(s0.closures@[h2]@, s0.nt(), s0.nc(), nt2, nc2);
            } else {
                lemma_closure_ok_mono(self.closures@[h2]@, s0.nt(), s0.nc(), nt2, nc2);
            }
        }
    }

    /// Reads upvalue slot `index` of the active closure.
    pub fn get_upvalue(&self, index: usize) -> (r: Result<LuaValue, LuaError>)
        requires
            self.wf(),
        ensures
            ({
                let ups = self.closure_at(self.cur().func as int).upvalues;
                match r {
                    Ok(v) => index < ups.len() && v@ == ups[index as int],
                    Err(e) => index >= ups.len() && e == LuaError::BadOperand,
                }
            }),
    {
        let f = self.current();
        let c = &self.closures[f.func];
        if index < c.upvalues.len() {
            Ok(c.upvalues[index].clone())
        } else {
            Err(LuaError::BadOperand)
        }
    }

    /// Writes upvalue slot `index` of the active closure, as SETUPVAL
    /// requires; the write is visible through every alias of the closure.
    pub fn set_upvalue(&mut self, index: usize, value: LuaValue) -> (r: Result<(), LuaError>)
        requires
            old(self).wf(),
            val_ok(value@, old(self).nt(), old(self).nc()),
        ensures
            final(self).wf(),
            final(self).tables@ == old(self).tables@,
            final(self).stackv() == old(self).stackv(),
            final(self).frames() == old(self).frames(),
            final(self).registry == old(self).registry,
            final(self).nc() == old(self).nc(),
            ({
                let h = old(self).cur().func as int;
                let ups = old(self).closure_at(h).upvalues;
                match r {
                    Ok(()) => index < ups.len() && final(self).closure_at(h) == (ClosureView {
                        upvalues: ups.update(index as int, value@),
                        ..old(self).closure_at(h)
                    }) && forall|h2: int|
                        0 <= h2 < old(self).nc() && h2 != h ==> final(self).closures@[h2]
                            == old(self).closures@[h2],
                    Err(e) => index >= ups.len() && e == LuaError::BadOperand
                        && final(self).closures@ == old(self).closures@,
                }
            }),
    {
        let f = self.current();
        let n = self.closures[f.func].upvalues.len();
        if index < n {
            self.closures[f.func].upvalues.set(index, value);
            proof {
                let h = old(self).cur().func as int;
                assert(final(self).closure_at(h).upvalues =~= old(self).closure_at(h)
                    .upvalues.update(index as int, value@));
                let nt2 = self.nt();
                let nc2 = self.nc();
                assert forall|h2: int| 0 <= h2 < nc2 implies closure_ok(
                    #[trigger] self.closures@[h2]@,
                    nt2,
                    nc2,
                ) by {
                    if h2 == h {
                        assert forall|i: int|
                            0 <= i < self.closures@[h2]@.upvalues.len() implies val_ok(
                            #[trigger] self.closures@[h2]@.upvalues[i],
                            nt2,
                            nc2,
                        ) by {
                            if i != index {
                                assert(val_ok(old(self).closures@[h2]@.upvalues[i], nt2, nc2));
                            }
                        }
                    }
                }
            }
            Ok(())
        } else {
            Err(LuaError::BadOperand)
        }
    }

    /// Clones out the shared handle on nested prototype `index` of the
    /// active closure's prototype.
    pub fn get_subproto(&self, index: usize) -> (r: Result<Rc<Prototype>, LuaError>)
        requires
            self.wf(),
        ensures
            ({
                let ps = self.closure_at(self.cur().func as int).proto.prototypes;
                match r {
                    Ok(p) => index < ps.len() && p@ == ps[index as int],
                    Err(e) => index >= ps.len() && e == LuaError::BadOperand,
                }
            }),
    {
        let f = self.current();
        let c = &self.closures[f.func];
        if index < c.proto.prototypes.len() {
            Ok(c.proto.prototypes[index].clone())
        } else {
            Err(LuaError::BadOperand)
        }
    }
}

} // verus!

verus! {

impl LuaState {
    /// Reads `key` from the table at handle `h`.
    pub fn get_table_value(&self, h: usize, key: &LuaValue) -> (r: LuaValue)
        requires
            self.wf(),
            h < self.nt(),
        ensures
            r@ == spec_table_get(self.table_at(h as int), key@),
            val_ok(r@, self.nt(), self.nc()),
    {
        proof {
            lemma_table_get_ok(self.table_at(h as int), self.nt(), self.nc(), key@);
        }
        self.tables[h].get(key)
    }

    /// Stores `key := value` into the table at handle `h`; the write is
    /// visible through every alias of the table.
    pub fn set_table_value(&mut self, h: usize, key: LuaValue, value: LuaValue)
        requires
            old(self).wf(),
            h < old(self).nt(),
            val_ok(key@, old(self).nt(), old(self).nc()),
            val_ok(value@, old(self).nt(), old(self).nc()),
        ensures
            final(self).wf(),
            final(self).stackv() == old(self).stackv(),
            final(self).frames() == old(self).frames(),
            final(self).closures@ == old(self).closures@,
            final(self).registry == old(self).registry,
            final(self).nt() == old(self).nt(),
            forall|h2: int|
                0 <= h2 < old(self).nt() && h2 != h ==> final(self).tables@[h2] == old(
                    self,
                ).tables@[h2],
            table_set_post(old(self).table_at(h as int), final(self).table_at(h as int), key@, value@),
    {
        self.tables[h].set(key, value);
        proof {
            let nt2 = self.nt();
            let nc2 = self.nc();
            let t0 = old(self).table_at(h as int);
            let t1 = self.table_at(h as int);
            assert forall|h2: int| 0 <= h2 < nt2 implies (#[trigger] self.tables@[h2]).wf()
                && table_ok(self.tables@[h2]@, nt2, nc2) by {
                if h2 != h {
                    assert(self.tables@[h2] == old(self).tables@[h2]);
                } else {
                    assert(vals_ok(t0.arr, nt2, nc2));
                    if t1.pairs != t0.pairs {
                        assert(pairs_updated_shape(t0.pairs, t1.pairs, key@, value@));
                        assert forall|i: int|
                            0 <= i < t1.pairs.len() implies val_ok(
                            (#[trigger] t1.pairs[i]).0,
                            nt2,
                            nc2,
                        ) && val_ok(t1.pairs[i].1, nt2, nc2) by {
                            if t1.pairs == t0.pairs.push((key@, value@)) {
                                if i < t0.pairs.len() {
                                    assert(t1.pairs[i] == t0.pairs[i]);
                                }
                            } else {
                                let i0 = choose|i0: int|
                                    0 <= i0 < t0.pairs.len() && t0.pairs[i0].0 == key@ && t1.pairs
                                        == t0.pairs.update(i0, (key@, value@));
                                if i != i0 {
                                    assert(t1.pairs[i] == t0.pairs[i]);
                                }
                            }
                        }
                    }
                }
            }
        }
    }
}

} // verus!

verus! {

/// Tables created at different times never compare equal as values,
/// whatever their contents: `create_table` hands out the handle one past
/// every handle the old state could reach, so no value held anywhere
/// before the call — and in particular no previously created table —
/// equals the fresh one.
pub proof fn lemma_fresh_table_is_new(v: LuaVal, nt: int, nc: int)
    requires
        val_ok(v, nt, nc),
    ensures
        v != LuaVal::Table(nt),
{
}

} // verus!
