//! The pool: the arena that owns every runtime value.
//!
//! Values are allocated once and never mutated; stack slots and scope
//! bindings refer to them by index. The collector frees a slot exactly
//! when nothing refers to it any more — the collection predicate is
//! computed by the machine, which can see every stack slot and every
//! binding, and is handed in as one mark per slot. A freed slot stays
//! in place (indices never move), holding nothing.

use vstd::prelude::*;

use crate::value::Value;
use crate::value::ValueV;

verus! {

/// The value a pool index denotes: the value held there, or `Null` for
/// an index that holds nothing or lies outside the pool.
pub open spec fn pool_at(pool: Seq<Option<ValueV>>, i: int) -> ValueV {
    if 0 <= i < pool.len() && pool[i] is Some {
        pool[i]->0
    } else {
        ValueV::Null
    }
}

/// The arena of runtime values.
#[derive(Debug)]
pub struct Pool {
    pool: Vec<Option<Value>>,
}

impl View for Pool {
    type V = Seq<Option<ValueV>>;

    closed spec fn view(&self) -> Seq<Option<ValueV>> {
        self.pool@.map_values(
            |v: Option<Value>|
                match v {
                    Some(x) => Some(x@),
                    None => None,
                },
        )
    }
}

impl Pool {
    /// An empty pool.
    pub fn new() -> (r: Self)
        ensures
            r@ == Seq::<Option<ValueV>>::empty(),
    {
        let r = Pool { pool: Vec::new() };
        proof {
            assert(r@ =~= Seq::<Option<ValueV>>::empty());
        }
        r
    }

    /// How many slots the pool has, freed ones included.
    pub fn len(&self) -> (r: usize)
        ensures
            r == self@.len(),
    {
        self.pool.len()
    }

    /// Allocates a value in a fresh slot and returns its index.
    pub fn create(&mut self, val: Value) -> (r: usize)
        ensures
            final(self)@ == old(self)@.push(Some(val@)),
            r == old(self)@.len(),
    {
        let ghost before = self@;
        let ghost vv = val@;
        let r = self.pool.len();
        self.pool.push(Some(val));
        proof {
            assert(self@ =~= before.push(Some(vv)));
        }
        r
    }

    /// A copy of the value at `i`; an index that holds nothing reads as
    /// `Null`.
    pub fn get(&self, i: usize) -> (r: Value)
        ensures
            r@ == pool_at(self@, i as int),
    {
        if i < self.pool.len() {
            match &self.pool[i] {
                Some(v) => v.duplicate(),
                None => Value::Null,
            }
        } else {
            Value::Null
        }
    }

    /// Frees every slot whose mark is cleared and keeps every slot whose
    /// mark is set: the marks are the collection predicate, one per
    /// slot. Indices never move.
    pub fn garbage(&mut self, keep: &Vec<bool>)
        requires
            keep@.len() == old(self)@.len(),
        ensures
            final(self)@.len() == old(self)@.len(),
            forall|i: int|
                0 <= i < final(self)@.len() ==> final(self)@[i] == (if keep@[i] {
                    old(self)@[i]
                } else {
                    None::<ValueV>
                }),
    {
        let ghost before = self@;
        let mut i: usize = 0;
        while i < self.pool.len()
            invariant
                i <= self.pool.len(),
                self@.len() == before.len(),
                keep@.len() == before.len(),
                self.pool@.len() == before.len(),
                forall|j: int|
                    0 <= j < i ==> self@[j] == (if keep@[j] {
                        before[j]
                    } else {
                        None::<ValueV>
                    }),
                forall|j: int| i <= j < before.len() ==> self@[j] == before[j],
            decreases self.pool.len() - i,
        {
            let ghost prev = self@;
            if !keep[i] {
                self.pool.set(i, None);
                proof {
                    assert(self@ =~= prev.update(i as int, None::<ValueV>));
                }
            }
            i = i + 1;
        }
    }
}

} // verus!
