//! Closures: a shared prototype plus the upvalues captured when the CLOSURE
//! instruction ran, or an identifier of a host-registered native function.
//! Exactly one of the two forms is populated.

use vstd::prelude::*;

use std::rc::Rc;

use crate::chunk::ProtoView;
use crate::chunk::Prototype;
use crate::value::LuaVal;
use crate::value::LuaValue;
use crate::value::vals_view;

verus! {

/// Mathematical model of a closure.
pub struct ClosureView {
    pub proto: ProtoView,
    pub native: Option<u32>,
    pub upvalues: Seq<LuaVal>,
}

/// A closure value.  Mutated in place through its owning arena; several
/// runtime values may alias one closure.
#[derive(Debug)]
pub struct LuaClosure {
    pub proto: Rc<Prototype>,
    pub native: Option<u32>,
    pub upvalues: Vec<LuaValue>,
}

impl View for LuaClosure {
    type V = ClosureView;

    open spec fn view(&self) -> ClosureView {
        ClosureView {
            proto: self.proto@,
            native: self.native,
            upvalues: vals_view(self.upvalues@),
        }
    }
}

impl LuaClosure {
    /// A script closure over `proto` with no upvalues captured yet.
    pub fn new(proto: Rc<Prototype>) -> (r: LuaClosure)
        ensures
            r@.proto == proto@,
            r@.native is None,
            r@.upvalues.len() == 0,
    {
        let r = LuaClosure { proto, native: None, upvalues: Vec::new() };
        proof {
            assert(r@.upvalues =~= Seq::<LuaVal>::empty());
        }
        r
    }

    /// A native closure carrying the host's identifier for the function it
    /// will run; the empty prototype only fills the slot.
    pub fn new_native(id: u32) -> (r: LuaClosure)
        ensures
            r@.native == Some(id),
            r@.upvalues.len() == 0,
            r@.proto.code.len() == 0,
    {
        let r = LuaClosure { proto: Rc::new(Prototype::new()), native: Some(id), upvalues: Vec::new() };
        proof {
            assert(r@.upvalues =~= Seq::<LuaVal>::empty());
        }
        r
    }

    /// The empty script closure that anchors the root call frame.
    pub fn new_empty() -> (r: LuaClosure)
        ensures
            r@.native is None,
            r@.upvalues.len() == 0,
            r@.proto.code.len() == 0,
            r@.proto.max_stack_size == 0,
    {
        let r = LuaClosure { proto: Rc::new(Prototype::new()), native: None, upvalues: Vec::new() };
        proof {
            assert(r@.upvalues =~= Seq::<LuaVal>::empty());
        }
        r
    }
}

} // verus!
