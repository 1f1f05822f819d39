//! The table: a 1-based array part for small integer keys and a hash part
//! for everything else.  The hash part is an association list with pairwise
//! distinct keys, modelled through a spec-level lookup function.

use vstd::prelude::*;

use crate::value::LuaVal;
use crate::value::LuaValue;
use crate::value::vals_view;

verus! {

/// Mathematical model of a table: the array part (slot 0 unused) and the
/// key-value pairs of the hash part.
pub struct TableView {
    pub arr: Seq<LuaVal>,
    pub pairs: Seq<(LuaVal, LuaVal)>,
}

/// First-match lookup in an association list.
pub open spec fn assoc_find(pairs: Seq<(LuaVal, LuaVal)>, k: LuaVal) -> Option<LuaVal>
    decreases pairs.len(),
{
    if pairs.len() == 0 {
        None
    } else if pairs[0].0 == k {
        Some(pairs[0].1)
    } else {
        assoc_find(pairs.drop_first(), k)
    }
}

/// Lookup in the hash part alone: an absent key reads as nil.
pub open spec fn hash_lookup(t: TableView, k: LuaVal) -> LuaVal {
    match assoc_find(t.pairs, k) {
        Some(v) => v,
        None => LuaVal::Nil,
    }
}

/// Full table lookup: nil finds nothing, an integer key inside the array
/// part's populated range reads the array, every other key reads the hash
/// part.
pub open spec fn spec_table_get(t: TableView, k: LuaVal) -> LuaVal {
    match k {
        LuaVal::Nil => LuaVal::Nil,
        LuaVal::Integer(i) => if 1 <= i < t.arr.len() {
            t.arr[i as int]
        } else {
            hash_lookup(t, k)
        },
        _ => hash_lookup(t, k),
    }
}

proof fn lemma_assoc_find_index(pairs: Seq<(LuaVal, LuaVal)>, k: LuaVal, i: int)
    requires
        0 <= i < pairs.len(),
        pairs[i].0 == k,
        forall|j: int| 0 <= j < i ==> pairs[j].0 != k,
    ensures
        assoc_find(pairs, k) == Some(pairs[i].1),
    decreases i,
{
    if i > 0 {
        lemma_assoc_find_index(pairs.drop_first(), k, i - 1);
    }
}

proof fn lemma_assoc_find_none(pairs: Seq<(LuaVal, LuaVal)>, k: LuaVal)
    requires
        forall|j: int| 0 <= j < pairs.len() ==> pairs[j].0 != k,
    ensures
        assoc_find(pairs, k) is None,
    decreases pairs.len(),
{
    if pairs.len() > 0 {
        lemma_assoc_find_none(pairs.drop_first(), k);
    }
}

proof fn lemma_assoc_find_update_other(
    pairs: Seq<(LuaVal, LuaVal)>,
    i: int,
    e: (LuaVal, LuaVal),
    k2: LuaVal,
)
    requires
        0 <= i < pairs.len(),
        pairs[i].0 != k2,
        e.0 != k2,
    ensures
        assoc_find(pairs.update(i, e), k2) == assoc_find(pairs, k2),
    decreases i,
{
    if i == 0 {
        assert(pairs.update(0, e).drop_first() =~= pairs.drop_first());
    } else {
        assert(pairs.update(i, e).drop_first() =~= pairs.drop_first().update(i - 1, e));
        lemma_assoc_find_update_other(pairs.drop_first(), i - 1, e, k2);
    }
}

proof fn lemma_assoc_find_push_other(pairs: Seq<(LuaVal, LuaVal)>, e: (LuaVal, LuaVal), k2: LuaVal)
    requires
        e.0 != k2,
    ensures
        assoc_find(pairs.push(e), k2) == assoc_find(pairs, k2),
    decreases pairs.len(),
{
    if pairs.len() == 0 {
        assert(pairs.push(e)[0] == e);
        assert(pairs.push(e).drop_first() =~= Seq::<(LuaVal, LuaVal)>::empty());
        assert(assoc_find(pairs.push(e).drop_first(), k2) is None);
        assert(assoc_find(pairs.push(e), k2) is None);
    } else {
        assert(pairs.push(e)[0] == pairs[0]);
        assert(pairs.push(e).drop_first() =~= pairs.drop_first().push(e));
        lemma_assoc_find_push_other(pairs.drop_first(), e, k2);
        if pairs[0].0 == k2 {
            assert(assoc_find(pairs.push(e), k2) == Some(pairs[0].1));
        } else {
            assert(assoc_find(pairs.push(e), k2) == assoc_find(
                pairs.push(e).drop_first(),
                k2,
            ));
            assert(assoc_find(pairs, k2) == assoc_find(pairs.drop_first(), k2));
        }
    }
}

/// A table value.  Created by NEWTABLE and mutated in place through its
/// owning arena; several runtime values may alias one table.
#[derive(Debug)]
pub struct LuaTable {
    pub array: Vec<LuaValue>,
    pub hash: Vec<(LuaValue, LuaValue)>,
}

impl View for LuaTable {
    type V = TableView;

    open spec fn view(&self) -> TableView {
        TableView {
            arr: vals_view(self.array@),
            pairs: Seq::new(self.hash@.len(), |i: int| (self.hash@[i].0@, self.hash@[i].1@)),
        }
    }
}

impl LuaTable {
    /// The array part is never empty (slot 0 exists and is unused) and the
    /// hash part holds pairwise distinct keys.
    pub open spec fn wf(&self) -> bool {
        &&& self@.arr.len() >= 1
        &&& forall|i: int, j: int|
            0 <= i < j < self@.pairs.len() ==> self@.pairs[i].0 != self@.pairs[j].0
    }

    /// A fresh table with `array_size` usable array slots, all nil, and an
    /// empty hash part.  The hash-size hint only preallocates.
    #[verifier::loop_isolation(false)]
    pub fn new(array_size: usize, hash_size: usize) -> (r: LuaTable)
        requires
            array_size < usize::MAX,
        ensures
            r.wf(),
            r@.arr.len() == array_size + 1,
            forall|i: int| 0 <= i <= array_size ==> r@.arr[i] == LuaVal::Nil,
            r@.pairs.len() == 0,
    {
        let mut array: Vec<LuaValue> = Vec::with_capacity(array_size + 1);
        let mut i: usize = 0;
        while i < array_size + 1
            invariant
                i <= array_size + 1,
                array@.len() == i,
                forall|j: int| 0 <= j < i ==> array@[j]@ == LuaVal::Nil,
            decreases array_size + 1 - i,
        {
            array.push(LuaValue::Nil);
            i = i + 1;
        }
        let hash: Vec<(LuaValue, LuaValue)> = Vec::with_capacity(hash_size);
        let r = LuaTable { array, hash };
        proof {
            assert(r@.pairs =~= Seq::<(LuaVal, LuaVal)>::empty());
        }
        r
    }

    /// The number of usable array slots.
    pub fn len(&self) -> (r: usize)
        requires
            self.wf(),
        ensures
            r == self@.arr.len() - 1,
    {
        self.array.len() - 1
    }

    /// Reads array slot `index` directly.
    pub fn get_array(&self, index: usize) -> (r: LuaValue)
        requires
            index < self@.arr.len(),
        ensures
            r@ == self@.arr[index as int],
    {
        self.array[index].clone()
    }

    /// Overwrites array slot `index` directly.
    pub fn set_array(&mut self, index: usize, value: LuaValue)
        requires
            index < old(self)@.arr.len(),
        ensures
            final(self)@.arr == old(self)@.arr.update(index as int, value@),
            final(self)@.pairs == old(self)@.pairs,
            old(self).wf() ==> final(self).wf(),
    {
        self.array.set(index, value);
        proof {
            assert(self@.arr =~= old(self)@.arr.update(index as int, value@));
            assert(self@.pairs =~= old(self)@.pairs);
        }
    }

    /// Looks a key up in the hash part alone.
    #[verifier::loop_isolation(false)]
    pub fn get_hash(&self, key: &LuaValue) -> (r: LuaValue)
        ensures
            r@ == hash_lookup(self@, key@),
    {
        let n = self.hash.len();
        let mut i: usize = 0;
        while i < n
            invariant
                n == self@.pairs.len(),
                i <= n,
                forall|j: int| 0 <= j < i ==> self@.pairs[j].0 != key@,
            decreases n - i,
        {
            if &self.hash[i].0 == key {
                proof {
                    lemma_assoc_find_index(self@.pairs, key@, i as int);
                }
                return self.hash[i].1.clone();
            }
            i = i + 1;
        }
        proof {
            lemma_assoc_find_none(self@.pairs, key@);
        }
        LuaValue::Nil
    }

    /// Binds `key` to `value` in the hash part: overwrites the existing
    /// entry if the key is present, appends a new one otherwise.
    #[verifier::loop_isolation(false)]
    pub fn set_hash(&mut self, key: LuaValue, value: LuaValue)
        requires
            old(self).wf(),
        ensures
            final(self).wf(),
            final(self)@.arr == old(self)@.arr,
            forall|k2: LuaVal|
                #[trigger] assoc_find(final(self)@.pairs, k2) == if k2 == key@ {
                    Some(value@)
                } else {
                    assoc_find(old(self)@.pairs, k2)
                },
            pairs_updated_shape(old(self)@.pairs, final(self)@.pairs, key@, value@),
    {
        let ghost old_pairs = self@.pairs;
        let n = self.hash.len();
        let mut i: usize = 0;
        while i < n
            invariant
                n == self@.pairs.len(),
                i <= n,
                self == old(self),
                forall|j: int| 0 <= j < i ==> self@.pairs[j].0 != key@,
            decreases n - i,
        {
            if self.hash[i].0 == key {
                let ghost kv = self@.pairs[i as int].0;
                self.hash.set(i, (key, value));
                proof {
                    assert(self@.pairs =~= old_pairs.update(i as int, (kv, value@)));
                    assert forall|k2: LuaVal| #[trigger]
                        assoc_find(self@.pairs, k2) == if k2 == kv {
                            Some(value@)
                        } else {
                            assoc_find(old_pairs, k2)
                        } by {
                        if k2 == kv {
                            lemma_assoc_find_index(self@.pairs, k2, i as int);
                        } else {
                            lemma_assoc_find_update_other(old_pairs, i as int, (kv, value@), k2);
                        }
                    }
                    assert(self@.arr =~= old(self)@.arr);
                }
                return;
            }
            i = i + 1;
        }
        let ghost kv = key@;
        self.hash.push((key, value));
        proof {
            assert(self@.pairs =~= old_pairs.push((kv, value@)));
            assert forall|k2: LuaVal| #[trigger]
                assoc_find(self@.pairs, k2) == if k2 == kv {
                    Some(value@)
                } else {
                    assoc_find(old_pairs, k2)
                } by {
                if k2 == kv {
                    lemma_assoc_find_index(self@.pairs, k2, n as int);
                } else {
                    lemma_assoc_find_push_other(old_pairs, (kv, value@), k2);
                }
            }
            assert(self@.arr =~= old(self)@.arr);
        }
    }

    /// Full table lookup as the engine's GETTABLE sees it.
    pub fn get(&self, key: &LuaValue) -> (r: LuaValue)
        ensures
            r@ == spec_table_get(self@, key@),
    {
        match key {
            LuaValue::Nil => LuaValue::Nil,
            LuaValue::Integer(i) => {
                if 1 <= *i && (*i as u64) < (self.array.len() as u64) {
                    self.array[*i as usize].clone()
                } else {
                    self.get_hash(key)
                }
            },
            _ => self.get_hash(key),
        }
    }

    /// Full table store as the engine's SETTABLE sees it: an integer key
    /// inside the array part's range overwrites the array slot, every other
    /// key goes to the hash part.
    pub fn set(&mut self, key: LuaValue, value: LuaValue)
        requires
            old(self).wf(),
        ensures
            final(self).wf(),
            table_set_post(old(self)@, final(self)@, key@, value@),
    {
        let in_array: bool = match &key {
            LuaValue::Integer(i) => 1 <= *i && (*i as u64) < (self.array.len() as u64),
            _ => false,
        };
        if in_array {
            let idx: usize = match &key {
                LuaValue::Integer(i) => *i as usize,
                _ => 0,
            };
            self.set_array(idx, value);
        } else {
            self.set_hash(key, value);
        }
    }
}

/// How a full table store relates the table before (`t0`) and after
/// (`t1`): an integer key inside the array range overwrites that slot,
/// every other key rebinds the hash part.
pub open spec fn table_set_post(t0: TableView, t1: TableView, k: LuaVal, v: LuaVal) -> bool {
    match k {
        LuaVal::Integer(i) => if 1 <= i < t0.arr.len() {
            t1.arr == t0.arr.update(i as int, v) && t1.pairs == t0.pairs
        } else {
            t1.arr == t0.arr && hash_updated(t0, t1, k, v) && pairs_updated_shape(
                t0.pairs,
                t1.pairs,
                k,
                v,
            )
        },
        _ => t1.arr == t0.arr && hash_updated(t0, t1, k, v) && pairs_updated_shape(
            t0.pairs,
            t1.pairs,
            k,
            v,
        ),
    }
}

/// A full store rebinds exactly its own key, as lookups see it: the stored
/// key now reads back `v`, and every other key reads as before.
pub proof fn lemma_set_get(t0: TableView, t1: TableView, k: LuaVal, v: LuaVal)
    requires
        table_set_post(t0, t1, k, v),
        !(k is Nil),
    ensures
        spec_table_get(t1, k) == v,
        forall|k2: LuaVal| k2 != k ==> spec_table_get(t1, k2) == spec_table_get(t0, k2),
        t1.arr.len() == t0.arr.len(),
{
    assert forall|k2: LuaVal| k2 != k implies spec_table_get(t1, k2) == spec_table_get(t0, k2) by {
        assert(assoc_find(t1.pairs, k2) == assoc_find(t0.pairs, k2));
    }
}

/// The hash parts of `t0` and `t1` agree everywhere except that `k` is now
/// bound to `v`.
pub open spec fn hash_updated(t0: TableView, t1: TableView, k: LuaVal, v: LuaVal) -> bool {
    forall|k2: LuaVal|
        #[trigger] assoc_find(t1.pairs, k2) == if k2 == k {
            Some(v)
        } else {
            assoc_find(t0.pairs, k2)
        }
}

/// `p1` is `p0` with `k` bound to `v`: either one existing entry replaced
/// in place, or the new pair appended.
pub open spec fn pairs_updated_shape(
    p0: Seq<(LuaVal, LuaVal)>,
    p1: Seq<(LuaVal, LuaVal)>,
    k: LuaVal,
    v: LuaVal,
) -> bool {
    ||| (exists|i: int| 0 <= i < p0.len() && p0[i].0 == k && p1 == p0.update(i, (k, v)))
    ||| p1 == p0.push((k, v))
}

/// A found value is one of the list's entries.
pub proof fn lemma_assoc_find_member(pairs: Seq<(LuaVal, LuaVal)>, k: LuaVal)
    ensures
        assoc_find(pairs, k) matches Some(v) ==> exists|i: int|
            0 <= i < pairs.len() && pairs[i].1 == v,
    decreases pairs.len(),
{
    if pairs.len() > 0 && pairs[0].0 != k {
        lemma_assoc_find_member(pairs.drop_first(), k);
        if assoc_find(pairs, k) is Some {
            let v = assoc_find(pairs, k)->Some_0;
            let i = choose|i: int|
                0 <= i < pairs.drop_first().len() && pairs.drop_first()[i].1 == v;
            assert(pairs[i + 1].1 == v);
        }
    }
}

} // verus!
