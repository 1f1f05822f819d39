//! The embedding surface: stack-indexed push/pop, type queries, and
//! global-variable access, as thin verified methods over the core state.

use vstd::prelude::*;

use crate::LuaError;
use crate::constants::LUA_REGISTRYINDEX;
use crate::constants::LUA_RIDX_GLOBALS;
use crate::constants::LUA_TBOOLEAN;
use crate::constants::LUA_TFUNCTION;
use crate::constants::LUA_TNIL;
use crate::constants::LUA_TNUMBER;
use crate::constants::LUA_TSTRING;
use crate::constants::LUA_TTABLE;
use crate::state::LuaState;
use crate::state::val_ok;
use crate::table::spec_table_get;
use crate::table::table_set_post;
use crate::value::LuaVal;
use crate::value::LuaValue;

verus! {

/// The numeric type tag of a value, as the embedding surface reports it.
pub open spec fn type_of(v: LuaVal) -> isize {
    match v {
        LuaVal::Nil => LUA_TNIL,
        LuaVal::Boolean(_) => LUA_TBOOLEAN,
        LuaVal::Integer(_) => LUA_TNUMBER,
        LuaVal::Number(_) => LUA_TNUMBER,
        LuaVal::Str(_) => LUA_TSTRING,
        LuaVal::Table(_) => LUA_TTABLE,
        LuaVal::Closure(_) => LUA_TFUNCTION,
    }
}

/// The global table's handle, if the registry slot holds one.
pub open spec fn globals_of(s: LuaState) -> Option<int> {
    match spec_table_get(s.table_at(s.registry as int), LuaVal::Integer(LUA_RIDX_GLOBALS as i64)) {
        LuaVal::Table(g) => Some(g),
        _ => None,
    }
}

impl LuaState {
    /// How many used slots sit above the active frame's closure slot.
    pub fn get_top(&self) -> (r: usize)
        requires
            self.frames().len() >= 1,
            self.cur().base + 1 <= self.stackv().len(),
        ensures
            r == self.stackv().len() - self.cur().base - 1,
    {
        self.stack.get_top() - self.get_base() - 1
    }

    /// Turns a possibly negative stack index (counting down from the top)
    /// into a nonnegative one.
    pub fn abs_index(&self, index: isize) -> (r: isize)
        requires
            self.frames().len() >= 1,
            self.stackv().len() <= isize::MAX,
            self.cur().base <= self.stackv().len(),
            index >= 0 || index + self.stackv().len() >= 0,
        ensures
            r == if index >= 0 {
                index as int
            } else {
                self.stackv().len() - self.cur().base + index
            },
    {
        if index >= 0 {
            index
        } else {
            let top = self.stack.get_top();
            let base = self.get_base();
            top as isize - base as isize + index
        }
    }

    /// Reads the value at frame-relative slot `index` (`base + index`).
    pub fn get(&self, index: usize) -> (r: Result<LuaValue, LuaError>)
        requires
            self.frames().len() >= 1,
        ensures
            match r {
                Ok(v) => self.cur().base + index < self.stackv().len()
                    && v@ == self.stackv()[self.cur().base + index],
                Err(e) => self.cur().base + index >= self.stackv().len() && e
                    == LuaError::StackOverflow,
            },
    {
        self.get_value(index)
    }

    /// Pops `n` values off the stack.
    pub fn pop(&mut self, n: usize) -> (r: Result<(), LuaError>)
        requires
            old(self).wf(),
        ensures
            final(self).wf(),
            old(self).same_arenas(*final(self)),
            final(self).frames() == old(self).frames(),
            match r {
                Ok(()) => n <= old(self).stackv().len() && final(self).stackv() == old(self).stackv().take(old(self).stackv().len() - n),
                Err(e) => n > old(self).stackv().len() && e == LuaError::StackOverflow && final(self).stackv() == old(self).stackv(),
            },
    {
        let len = self.stack.get_top();
        if n > len {
            return Err(LuaError::StackOverflow);
        }
        let mut i: usize = 0;
        while i < n
            invariant
                old(self).wf(),
                self.base_ci@ == old(self).base_ci@,
                self.registry == old(self).registry,
                self.tables@ == old(self).tables@,
                self.closures@ == old(self).closures@,
                i <= n,
                n <= old(self).stack@.len(),
                self.stack@ == old(self).stack@.take(old(self).stack@.len() - i),
            decreases n - i,
        {
            let _ = self.stack.pop();
            i = i + 1;
            proof {
                assert(self.stack@ =~= old(self).stack@.take(old(self).stack@.len() - i));
            }
        }
        Ok(())
    }

    /// Pushes a copy of the value at frame-relative slot `index`.
    pub fn pushvalue(&mut self, index: usize) -> (r: Result<(), LuaError>)
        requires
            old(self).wf(),
        ensures
            final(self).wf(),
            old(self).same_arenas(*final(self)),
            final(self).frames() == old(self).frames(),
            match r {
                Ok(()) => old(self).cur().base + index < old(self).stackv().len() && final(self).stackv() == old(self).stackv().push(
                    old(self).stackv()[old(self).cur().base + index],
                ),
                Err(e) => old(self).cur().base + index >= old(self).stackv().len() && e
                    == LuaError::StackOverflow && final(self).stackv() == old(self).stackv(),
            },
    {
        let v = match self.get_value(index) {
            Ok(v) => v,
            Err(e) => { return Err(e); },
        };
        proof {
            assert(val_ok(
                old(self).stackv()[old(self).cur().base + index],
                self.nt(),
                self.nc(),
            ));
        }
        self.push(v);
        Ok(())
    }

    /// Pushes the value bound to `name` in the global table.
    pub fn get_global(&mut self, name: Vec<u8>) -> (r: Result<(), LuaError>)
        requires
            old(self).wf(),
        ensures
            final(self).wf(),
            old(self).same_arenas(*final(self)),
            final(self).frames() == old(self).frames(),
            match r {
                Ok(()) => globals_of(*old(self)) matches Some(g) && final(self).stackv() == old(self).stackv().push(spec_table_get(old(self).table_at(g), LuaVal::Str(name@))),
                Err(e) => globals_of(*old(self)) is None && e == LuaError::TypeError && final(self).stackv() == old(self).stackv(),
            },
    {
        let key = LuaValue::Integer(LUA_RIDX_GLOBALS as i64);
        let gv = self.get_table_value(self.registry, &key);
        let g: usize = match gv {
            LuaValue::Table(g) => g,
            _ => { return Err(LuaError::TypeError); },
        };
        let v = self.get_table_value(g, &LuaValue::Str(name));
        self.push(v);
        Ok(())
    }

    /// Pops the stack top and binds it to `name` in the global table.
    pub fn set_global(&mut self, name: Vec<u8>) -> (r: Result<(), LuaError>)
        requires
            old(self).wf(),
        ensures
            final(self).wf(),
            final(self).frames() == old(self).frames(),
            final(self).registry == old(self).registry,
            final(self).closures@ == old(self).closures@,
            final(self).nt() == old(self).nt(),
            match r {
                Ok(()) => {
                    &&& globals_of(*old(self)) matches Some(g)
                    &&& old(self).stackv().len() > 0
                    &&& final(self).stackv() == old(self).stackv().drop_last()
                    &&& forall|h2: int|
                        0 <= h2 < old(self).nt() && Some(h2) != globals_of(*old(self)) ==> final(self).tables@[h2] == old(self).tables@[h2]
                    &&& table_set_post(
                        old(self).table_at(globals_of(*old(self))->Some_0),
                        final(self).table_at(globals_of(*old(self))->Some_0),
                        LuaVal::Str(name@),
                        old(self).stackv().last(),
                    )
                },
                Err(e) => {
                    &&& final(self).stackv() == old(self).stackv()
                    &&& final(self).tables@ == old(self).tables@
                    &&& if globals_of(*old(self)) is None {
                        e == LuaError::TypeError
                    } else {
                        e == LuaError::StackOverflow && old(self).stackv().len() == 0
                    }
                },
            },
    {
        let key = LuaValue::Integer(LUA_RIDX_GLOBALS as i64);
        let gv = self.get_table_value(self.registry, &key);
        let g: usize = match gv {
            LuaValue::Table(g) => g,
            _ => { return Err(LuaError::TypeError); },
        };
        if self.stack.get_top() == 0 {
            return Err(LuaError::StackOverflow);
        }
        let v = self.pop_value();
        self.set_table_value(g, LuaValue::Str(name), v);
        Ok(())
    }

    /// Pushes entry `n` of the table named by `idx`: the registry for the
    /// registry pseudo-index, otherwise the table at frame-relative slot
    /// `idx`.
    pub fn raw_geti(&mut self, idx: isize, n: i64) -> (r: Result<(), LuaError>)
        requires
            old(self).wf(),
        ensures
            final(self).wf(),
            old(self).same_arenas(*final(self)),
            final(self).frames() == old(self).frames(),
            match r {
                Ok(()) => if idx == LUA_REGISTRYINDEX {
                    final(self).stackv() == old(self).stackv().push(
                        spec_table_get(
                            old(self).table_at(old(self).registry as int),
                            LuaVal::Integer(n),
                        ),
                    )
                } else {
                    &&& idx >= 0
                    &&& old(self).cur().base + idx < old(self).stackv().len()
                    &&& old(self).stackv()[old(self).cur().base + idx] matches LuaVal::Table(h)
                    &&& final(self).stackv() == old(self).stackv().push(
                        spec_table_get(old(self).table_at(h), LuaVal::Integer(n)),
                    )
                },
                Err(e) => {
                    &&& final(self).stackv() == old(self).stackv()
                    &&& idx != LUA_REGISTRYINDEX
                    &&& if idx < 0 {
                        e == LuaError::BadOperand
                    } else if old(self).cur().base + idx >= old(self).stackv().len() {
                        e == LuaError::StackOverflow
                    } else {
                        e == LuaError::TypeError && !(old(self).stackv()[old(self).cur().base
                            + idx] is Table)
                    }
                },
            },
    {
        if idx == LUA_REGISTRYINDEX {
            let key = LuaValue::Integer(n);
            let v = self.get_table_value(self.registry, &key);
            self.push(v);
            Ok(())
        } else if idx >= 0 {
            let tv = match self.get_value(idx as usize) {
                Ok(v) => v,
                Err(e) => { return Err(e); },
            };
            let h: usize = match tv {
                LuaValue::Table(h) => h,
                _ => { return Err(LuaError::TypeError); },
            };
            proof {
                assert(val_ok(
                    old(self).stackv()[old(self).cur().base + idx],
                    self.nt(),
                    self.nc(),
                ));
            }
            let key = LuaValue::Integer(n);
            let v = self.get_table_value(h, &key);
            self.push(v);
            Ok(())
        } else {
            Err(LuaError::BadOperand)
        }
    }

    /// Pops the stack top and stores it under string key `name` in the
    /// table at frame-relative slot `index`.
    pub fn set_field(&mut self, index: usize, name: Vec<u8>) -> (r: Result<(), LuaError>)
        requires
            old(self).wf(),
        ensures
            final(self).wf(),
            final(self).frames() == old(self).frames(),
            final(self).registry == old(self).registry,
            final(self).closures@ == old(self).closures@,
            final(self).nt() == old(self).nt(),
            match r {
                Ok(()) => {
                    &&& old(self).cur().base + index < old(self).stackv().len()
                    &&& old(self).stackv()[old(self).cur().base + index] matches LuaVal::Table(h)
                    &&& old(self).stackv().len() > 0
                    &&& final(self).stackv() == old(self).stackv().drop_last()
                    &&& forall|h2: int|
                        0 <= h2 < old(self).nt()
                            && old(self).stackv()[old(self).cur().base + index] != LuaVal::Table(h2)
                            ==> final(self).tables@[h2] == old(self).tables@[h2]
                    &&& (old(self).stackv()[old(self).cur().base + index] matches LuaVal::Table(h)
                        ==> table_set_post(
                        old(self).table_at(h),
                        final(self).table_at(h),
                        LuaVal::Str(name@),
                        old(self).stackv().last(),
                    ))
                },
                Err(e) => {
                    &&& final(self).stackv() == old(self).stackv()
                    &&& final(self).tables@ == old(self).tables@
                    &&& if old(self).cur().base + index >= old(self).stackv().len() {
                        e == LuaError::StackOverflow
                    } else {
                        e == LuaError::TypeError && !(old(self).stackv()[old(self).cur().base
                            + index] is Table)
                    }
                },
            },
    {
        let tv = match self.get_value(index) {
            Ok(v) => v,
            Err(e) => { return Err(e); },
        };
        let h: usize = match tv {
            LuaValue::Table(h) => h,
            _ => { return Err(LuaError::TypeError); },
        };
        proof {
            assert(val_ok(
                old(self).stackv()[old(self).cur().base + index],
                self.nt(),
                self.nc(),
            ));
        }
        let v = self.pop_value();
        self.set_table_value(h, LuaValue::Str(name), v);
        Ok(())
    }

    /// Wraps the host's native function `id` as a closure and pushes it.
    pub fn push_native_function(&mut self, id: u32) -> (r: ())
        requires
            old(self).wf(),
        ensures
            final(self).wf(),
            final(self).frames() == old(self).frames(),
            final(self).tables@ == old(self).tables@,
            final(self).registry == old(self).registry,
            final(self).nc() == old(self).nc() + 1,
            final(self).closure_at(old(self).nc()).native == Some(id),
            final(self).stackv() == old(self).stackv().push(LuaVal::Closure(old(self).nc())),
    {
        let v = self.new_native_closure(id);
        self.push(v);
    }

    /// The type tag at absolute stack slot `index`.
    pub fn lua_type(&self, index: usize) -> (r: isize)
        requires
            index < self.stackv().len(),
        ensures
            r == type_of(self.stackv()[index as int]),
    {
        match self.stack.get(index) {
            LuaValue::Nil => LUA_TNIL,
            LuaValue::Boolean(_) => LUA_TBOOLEAN,
            LuaValue::Integer(_) => LUA_TNUMBER,
            LuaValue::Number(_) => LUA_TNUMBER,
            LuaValue::Str(_) => LUA_TSTRING,
            LuaValue::Table(_) => LUA_TTABLE,
            LuaValue::Closure(_) => LUA_TFUNCTION,
        }
    }

    /// Whether the value at absolute slot `index` is a number.
    pub fn is_number(&self, index: usize) -> (r: bool)
        requires
            index < self.stackv().len(),
        ensures
            r == (type_of(self.stackv()[index as int]) == LUA_TNUMBER),
    {
        self.lua_type(index) == LUA_TNUMBER
    }

    /// Whether the value at absolute slot `index` is a string.
    pub fn is_string(&self, index: usize) -> (r: bool)
        requires
            index < self.stackv().len(),
        ensures
            r == (type_of(self.stackv()[index as int]) == LUA_TSTRING),
    {
        self.lua_type(index) == LUA_TSTRING
    }

    /// Whether the value at absolute slot `index` is a native-function
    /// closure.
    pub fn is_cfunction(&self, index: usize) -> (r: bool)
        requires
            self.wf(),
            index < self.stackv().len(),
        ensures
            r == (self.stackv()[index as int] matches LuaVal::Closure(h) && self.closure_at(
                h,
            ).native is Some),
    {
        let v = self.stack.get(index);
        match v {
            LuaValue::Closure(h) => {
                proof {
                    assert(val_ok(self.stackv()[index as int], self.nt(), self.nc()));
                }
                self.closures[h].native.is_some()
            },
            _ => false,
        }
    }

    /// Whether the value at absolute slot `index` carries the integer tag.
    pub fn is_integer(&self, index: usize) -> (r: bool)
        requires
            index < self.stackv().len(),
        ensures
            r == (self.stackv()[index as int] is Integer),
    {
        match self.stack.get(index) {
            LuaValue::Integer(_) => true,
            _ => false,
        }
    }

    /// Whether the value at absolute slot `index` is a table.
    pub fn is_table(&self, index: usize) -> (r: bool)
        requires
            index < self.stackv().len(),
        ensures
            r == (type_of(self.stackv()[index as int]) == LUA_TTABLE),
    {
        self.lua_type(index) == LUA_TTABLE
    }

    /// Whether the value at absolute slot `index` is nil.
    pub fn is_nil(&self, index: usize) -> (r: bool)
        requires
            index < self.stackv().len(),
        ensures
            r == (type_of(self.stackv()[index as int]) == LUA_TNIL),
    {
        self.lua_type(index) == LUA_TNIL
    }

    /// Whether the value at absolute slot `index` is a boolean.
    pub fn is_boolean(&self, index: usize) -> (r: bool)
        requires
            index < self.stackv().len(),
        ensures
            r == (type_of(self.stackv()[index as int]) == LUA_TBOOLEAN),
    {
        self.lua_type(index) == LUA_TBOOLEAN
    }

    /// Whether the value at absolute slot `index` is a function.
    pub fn is_function(&self, index: usize) -> (r: bool)
        requires
            index < self.stackv().len(),
        ensures
            r == (type_of(self.stackv()[index as int]) == LUA_TFUNCTION),
    {
        self.lua_type(index) == LUA_TFUNCTION
    }

    /// Opens the base library: registers the host's `print` function (by
    /// identifier) as a global, binds `_G` to the global table itself, and
    /// leaves the global table pushed.
    pub fn luaopen_base(&mut self, print_id: u32) -> (r: Result<isize, LuaError>)
        requires
            old(self).wf(),
        ensures
            final(self).wf(),
            match r {
                Ok(code) => {
                    &&& code == 0
                    &&& globals_of(*old(self)) matches Some(g)
                    &&& final(self).nc() == old(self).nc() + 1
                    &&& final(self).closure_at(old(self).nc()).native == Some(print_id)
                    &&& spec_table_get(
                        final(self).table_at(globals_of(*old(self))->Some_0),
                        LuaVal::Str(seq![0x70u8, 0x72u8, 0x69u8, 0x6eu8, 0x74u8]),
                    ) == LuaVal::Closure(old(self).nc())
                    &&& spec_table_get(
                        final(self).table_at(globals_of(*old(self))->Some_0),
                        LuaVal::Str(seq![0x5fu8, 0x47u8]),
                    ) == LuaVal::Table(globals_of(*old(self))->Some_0)
                    &&& final(self).stackv() == old(self).stackv().push(
                        LuaVal::Table(globals_of(*old(self))->Some_0),
                    )
                },
                Err(e) => globals_of(*old(self)) is None && e == LuaError::TypeError,
            },
    {
        let key = LuaValue::Integer(LUA_RIDX_GLOBALS as i64);
        let gv = self.get_table_value(self.registry, &key);
        let g: usize = match gv {
            LuaValue::Table(g) => g,
            _ => { return Err(LuaError::TypeError); },
        };
        let pv = self.new_native_closure(print_id);
        let mut pname: Vec<u8> = Vec::new();
        pname.push(0x70);
        pname.push(0x72);
        pname.push(0x69);
        pname.push(0x6e);
        pname.push(0x74);
        proof {
            assert(pname@ =~= seq![0x70u8, 0x72u8, 0x69u8, 0x6eu8, 0x74u8]);
        }
        let ghost t0 = self.table_at(g as int);
        self.set_table_value(g, LuaValue::Str(pname), pv);
        let ghost t1 = self.table_at(g as int);
        let mut gname: Vec<u8> = Vec::new();
        gname.push(0x5f);
        gname.push(0x47);
        proof {
            assert(gname@ =~= seq![0x5fu8, 0x47u8]);
        }
        self.set_table_value(g, LuaValue::Str(gname), LuaValue::Table(g));
        let ghost t2 = self.table_at(g as int);
        self.push(LuaValue::Table(g));
        proof {
            crate::table::lemma_set_get(
                t0,
                t1,
                LuaVal::Str(seq![0x70u8, 0x72u8, 0x69u8, 0x6eu8, 0x74u8]),
                LuaVal::Closure(old(self).nc()),
            );
            crate::table::lemma_set_get(
                t1,
                t2,
                LuaVal::Str(seq![0x5fu8, 0x47u8]),
                LuaVal::Table(g as int),
            );
            assert(seq![0x70u8, 0x72u8, 0x69u8, 0x6eu8, 0x74u8].len() != seq![0x5fu8, 0x47u8].len());
        }
        Ok(0)
    }
}

} // verus!
