//! The tagged runtime value.  Integer and float are distinct tags; a float
//! is carried as its IEEE-754 bit pattern.  Tables and closures are handles
//! into the owning interpreter's arenas, so two values alias the same table
//! exactly when they hold the same handle, and value equality on those tags
//! is aliasable identity, never structural content.

use vstd::prelude::*;

verus! {

/// A runtime value.
#[derive(Debug)]
pub enum LuaValue {
    Nil,
    Boolean(bool),
    Integer(i64),
    Number(u64),
    Str(Vec<u8>),
    Table(usize),
    Closure(usize),
}

/// Mathematical model of a runtime value.
pub enum LuaVal {
    Nil,
    Boolean(bool),
    Integer(i64),
    Number(u64),
    Str(Seq<u8>),
    Table(int),
    Closure(int),
}

impl View for LuaValue {
    type V = LuaVal;

    open spec fn view(&self) -> LuaVal {
        match self {
            LuaValue::Nil => LuaVal::Nil,
            LuaValue::Boolean(b) => LuaVal::Boolean(*b),
            LuaValue::Integer(i) => LuaVal::Integer(*i),
            LuaValue::Number(n) => LuaVal::Number(*n),
            LuaValue::Str(s) => LuaVal::Str(s@),
            LuaValue::Table(h) => LuaVal::Table(*h as int),
            LuaValue::Closure(h) => LuaVal::Closure(*h as int),
        }
    }
}

/// The models of a slice of values.
pub open spec fn vals_view(s: Seq<LuaValue>) -> Seq<LuaVal> {
    Seq::new(s.len(), |i: int| s[i]@)
}

impl Clone for LuaValue {
    /// A copy with the same model, as register moves and upvalue capture
    /// require.
    fn clone(&self) -> (r: LuaValue)
        ensures
            r@ == self@,
    {
        match self {
            LuaValue::Nil => LuaValue::Nil,
            LuaValue::Boolean(b) => LuaValue::Boolean(*b),
            LuaValue::Integer(i) => LuaValue::Integer(*i),
            LuaValue::Number(n) => LuaValue::Number(*n),
            LuaValue::Str(s) => {
                let mut t: Vec<u8> = Vec::new();
                let mut i: usize = 0;
                while i < s.len()
                    invariant
                        i <= s@.len(),
                        t@ == s@.subrange(0, i as int),
                    decreases s@.len() - i,
                {
                    t.push(s[i]);
                    i = i + 1;
                    proof {
                        assert(t@ =~= s@.subrange(0, i as int));
                    }
                }
                proof {
                    assert(t@ =~= s@);
                }
                LuaValue::Str(t)
            },
            LuaValue::Table(h) => LuaValue::Table(*h),
            LuaValue::Closure(h) => LuaValue::Closure(*h),
        }
    }
}

/// Compares two byte strings for content equality.
fn bytes_eq(a: &Vec<u8>, b: &Vec<u8>) -> (r: bool)
    ensures
        r == (a@ == b@),
{
    if a.len() != b.len() {
        proof {
            assert(a@ != b@) by {
                assert(a@.len() != b@.len());
            }
        }
        return false;
    }
    let n = a.len();
    let mut i: usize = 0;
    while i < n
        invariant
            n == a@.len() == b@.len(),
            i <= n,
            forall|j: int| 0 <= j < i ==> a@[j] == b@[j],
        decreases n - i,
    {
        if a[i] != b[i] {
            return false;
        }
        i = i + 1;
    }
    proof {
        assert(a@ =~= b@);
    }
    true
}

impl PartialEq for LuaValue {
    /// Equality of models: structural for scalar and string tags, aliasable
    /// identity (same arena handle) for tables and closures.
    fn eq(&self, other: &Self) -> (r: bool) {
        match (self, other) {
            (LuaValue::Nil, LuaValue::Nil) => true,
            (LuaValue::Boolean(a), LuaValue::Boolean(b)) => a == b,
            (LuaValue::Integer(a), LuaValue::Integer(b)) => a == b,
            (LuaValue::Number(a), LuaValue::Number(b)) => a == b,
            (LuaValue::Str(a), LuaValue::Str(b)) => bytes_eq(a, b),
            (LuaValue::Table(a), LuaValue::Table(b)) => a == b,
            (LuaValue::Closure(a), LuaValue::Closure(b)) => a == b,
            _ => false,
        }
    }
}

impl vstd::std_specs::cmp::PartialEqSpecImpl for LuaValue {
    open spec fn obeys_eq_spec() -> bool {
        true
    }

    open spec fn eq_spec(&self, other: &Self) -> bool {
        self@ == other@
    }
}

/// Copies a vector of values, preserving each model.
pub fn clone_vals(v: &Vec<LuaValue>) -> (r: Vec<LuaValue>)
    ensures
        r@.len() == v@.len(),
        forall|i: int| 0 <= i < v@.len() ==> r@[i]@ == v@[i]@,
{
    let mut r: Vec<LuaValue> = Vec::new();
    let mut i: usize = 0;
    while i < v.len()
        invariant
            i <= v@.len(),
            r@.len() == i,
            forall|j: int| 0 <= j < i ==> r@[j]@ == v@[j]@,
        decreases v@.len() - i,
    {
        r.push(v[i].clone());
        i = i + 1;
    }
    r
}

impl LuaValue {
    /// Whether the value carries the table tag.
    pub fn is_table(&self) -> (r: bool)
        ensures
            r == (self@ is Table),
    {
        match self {
            LuaValue::Table(_) => true,
            _ => false,
        }
    }
}

} // verus!
