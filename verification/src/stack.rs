//! The single flat value stack shared by every call frame.  Register `i` of
//! the frame with base `b` lives in slot `b + 1 + i`.

use vstd::prelude::*;

use crate::value::LuaVal;
use crate::value::LuaValue;
use crate::value::vals_view;

verus! {

/// The value stack.  Its top is always its length: shrinking pops, growing
/// appends nil slots.
#[derive(Debug)]
pub struct LuaStack {
    pub stack: Vec<LuaValue>,
}

impl View for LuaStack {
    type V = Seq<LuaVal>;

    open spec fn view(&self) -> Seq<LuaVal> {
        vals_view(self.stack@)
    }
}

impl LuaStack {
    /// A fresh stack holding one unused nil slot, with room for `size`
    /// values preallocated.
    pub fn new(size: usize) -> (r: LuaStack)
        ensures
            r@.len() == 1,
            r@[0] == LuaVal::Nil,
    {
        let mut stack: Vec<LuaValue> = Vec::with_capacity(size);
        stack.push(LuaValue::Nil);
        LuaStack { stack }
    }

    /// The current top: one past the last used slot.
    pub fn get_top(&self) -> (r: usize)
        ensures
            r == self@.len(),
    {
        self.stack.len()
    }

    /// Sets the top exactly: pops down to `top` or extends with nil slots
    /// up to it.
    #[verifier::loop_isolation(false)]
    pub fn set_top(&mut self, top: usize)
        ensures
            final(self)@.len() == top,
            forall|i: int| 0 <= i < top && i < old(self)@.len() ==> final(self)@[i] == old(self)@[i],
            forall|i: int| old(self)@.len() <= i < top ==> final(self)@[i] == LuaVal::Nil,
    {
        if top >= self.stack.len() {
            while self.stack.len() < top
                invariant
                    old(self)@.len() <= self@.len() <= top,
                    forall|i: int| 0 <= i < old(self)@.len() ==> self@[i] == old(self)@[i],
                    forall|i: int| old(self)@.len() <= i < self@.len() ==> self@[i] == LuaVal::Nil,
                decreases top - self@.len(),
            {
                let ghost prev = self@;
                self.stack.push(LuaValue::Nil);
                proof {
                    assert(self@ =~= prev.push(LuaVal::Nil));
                }
            }
        } else {
            self.stack.truncate(top);
            proof {
                assert(forall|i: int|
                    0 <= i < top && i < old(self)@.len() ==> self@[i] == old(self)@[i]);
            }
        }
    }

    /// Grows the stack to hold at least `size` slots; never shrinks.
    pub fn set_size(&mut self, size: usize)
        ensures
            final(self)@.len() == if old(self)@.len() >= size {
                old(self)@.len() as int
            } else {
                size as int
            },
            forall|i: int| 0 <= i < old(self)@.len() ==> final(self)@[i] == old(self)@[i],
            forall|i: int| old(self)@.len() <= i < final(self)@.len() ==> final(self)@[i]
                == LuaVal::Nil,
    {
        if size > self.stack.len() {
            self.set_top(size);
        }
    }

    /// Pushes one value.
    pub fn push(&mut self, value: LuaValue)
        ensures
            final(self)@ == old(self)@.push(value@),
    {
        self.stack.push(value);
        proof {
            assert(self@ =~= old(self)@.push(value@));
        }
    }

    /// Pops the topmost value.
    pub fn pop(&mut self) -> (r: LuaValue)
        requires
            old(self)@.len() > 0,
        ensures
            final(self)@ == old(self)@.drop_last(),
            r@ == old(self)@.last(),
    {
        let r = match self.stack.pop() {
            Some(v) => v,
            None => LuaValue::Nil,
        };
        proof {
            assert(self@ =~= old(self)@.drop_last());
        }
        r
    }

    /// Reads slot `index`.
    pub fn get(&self, index: usize) -> (r: LuaValue)
        requires
            index < self@.len(),
        ensures
            r@ == self@[index as int],
    {
        self.stack[index].clone()
    }

    /// Overwrites slot `index`.
    pub fn set(&mut self, index: usize, value: LuaValue)
        requires
            index < old(self)@.len(),
        ensures
            final(self)@ == old(self)@.update(index as int, value@),
    {
        self.stack.set(index, value);
        proof {
            assert(self@ =~= old(self)@.update(index as int, value@));
        }
    }
}

} // verus!
