//! A scope: one variable-binding map in the lexical chain.
//!
//! Scopes live in an arena owned by the machine; a scope refers to its
//! parent by arena index rather than by a shared pointer. Writing a
//! binding always writes the scope it is called on — an existing
//! binding of the same name in an ancestor is shadowed, never mutated.

use vstd::prelude::*;

use crate::value::ValueRef;

verus! {

/// The bindings seen later override the ones written earlier.
pub open spec fn entries_map(entries: Seq<(String, ValueRef)>) -> Map<Seq<char>, ValueRef>
    decreases entries.len(),
{
    if entries.len() == 0 {
        Map::empty()
    } else {
        entries_map(entries.drop_last()).insert(entries.last().0@, entries.last().1)
    }
}

/// No two entries bind the same name.
pub open spec fn unique_keys(entries: Seq<(String, ValueRef)>) -> bool {
    forall|i: int, j: int| 0 <= i < j < entries.len() ==> entries[i].0@ != entries[j].0@
}

/// Every entry of a uniquely-keyed list is what the map holds for its
/// name.
proof fn lemma_entries_map_entry(entries: Seq<(String, ValueRef)>, j: int)
    requires
        unique_keys(entries),
        0 <= j < entries.len(),
    ensures
        entries_map(entries).contains_key(entries[j].0@),
        entries_map(entries)[entries[j].0@] == entries[j].1,
    decreases entries.len(),
{
    if j < entries.len() - 1 {
        assert(entries.drop_last()[j] == entries[j]);
        lemma_entries_map_entry(entries.drop_last(), j);
        assert(entries.last().0@ != entries[j].0@);
    }
}

/// A name bound by no entry is absent from the map.
proof fn lemma_entries_map_absent(entries: Seq<(String, ValueRef)>, k: Seq<char>)
    requires
        forall|j: int| 0 <= j < entries.len() ==> entries[j].0@ != k,
    ensures
        !entries_map(entries).contains_key(k),
    decreases entries.len(),
{
    if entries.len() > 0 {
        lemma_entries_map_absent(entries.drop_last(), k);
    }
}

/// Every name the map holds is bound by some entry.
proof fn lemma_entries_map_covered(entries: Seq<(String, ValueRef)>, k: Seq<char>)
    requires
        entries_map(entries).contains_key(k),
    ensures
        exists|j: int| 0 <= j < entries.len() && entries[j].0@ == k && entries[j].1 == entries_map(
            entries,
        )[k],
    decreases entries.len(),
{
    if entries.len() > 0 {
        if entries.last().0@ == k {
            assert(entries[entries.len() - 1].0@ == k);
        } else {
            lemma_entries_map_covered(entries.drop_last(), k);
            let j = choose|j: int|
                0 <= j < entries.drop_last().len() && entries.drop_last()[j].0@ == k
                    && entries.drop_last()[j].1 == entries_map(entries.drop_last())[k];
            assert(entries[j] == entries.drop_last()[j]);
        }
    }
}

/// Replacing the value of the entry that binds `k` turns the map into
/// an insert of the new value.
proof fn lemma_entries_map_update(
    entries: Seq<(String, ValueRef)>,
    j: int,
    entry: (String, ValueRef),
)
    requires
        unique_keys(entries),
        0 <= j < entries.len(),
        entry.0@ == entries[j].0@,
    ensures
        entries_map(entries.update(j, entry)) == entries_map(entries).insert(entry.0@, entry.1),
    decreases entries.len(),
{
    let updated = entries.update(j, entry);
    if j == entries.len() - 1 {
        assert(updated.drop_last() =~= entries.drop_last());
        assert(updated.last() == entry);
        assert(entries_map(updated) =~= entries_map(entries).insert(entry.0@, entry.1));
    } else {
        assert(updated.drop_last() =~= entries.drop_last().update(j, entry));
        assert(updated.last() == entries.last());
        assert(entries.drop_last()[j] == entries[j]);
        lemma_entries_map_update(entries.drop_last(), j, entry);
        assert(entries_map(updated) =~= entries_map(entries).insert(entry.0@, entry.1));
    }
}

/// Some binding of this scope refers to pool slot `i`.
pub open spec fn scope_refs(s: ScopeV, i: int) -> bool {
    exists|k: Seq<char>| s.vars.contains_key(k) && s.vars[k] == ValueRef::Pooled(i as usize)
}

/// One link of the scope chain: a binding map plus the arena index of
/// the enclosing scope.
#[derive(Debug)]
pub struct Scope {
    /// Arena index of the enclosing scope, `None` at the root.
    pub parent: Option<usize>,
    variables: Vec<(String, ValueRef)>,
}

/// Model of a `Scope`.
#[verifier::ext_equal]
pub struct ScopeV {
    pub parent: Option<usize>,
    pub vars: Map<Seq<char>, ValueRef>,
}

impl View for Scope {
    type V = ScopeV;

    closed spec fn view(&self) -> ScopeV {
        ScopeV { parent: self.parent, vars: entries_map(self.variables@) }
    }
}

impl Scope {
    /// The arena index of the enclosing scope, `None` at the root.
    pub fn parent_index(&self) -> (r: Option<usize>)
        ensures
            r == self@.parent,
    {
        self.parent
    }

    /// Internal soundness: each name has at most one entry.
    pub closed spec fn wf(&self) -> bool {
        unique_keys(self.variables@)
    }

    /// A child scope of the scope at arena index `parent`.
    pub fn new(parent: usize) -> (r: Self)
        ensures
            r.wf(),
            r@.parent == Some(parent),
            r@.vars == Map::<Seq<char>, ValueRef>::empty(),
    {
        Scope { parent: Some(parent), variables: Vec::new() }
    }

    /// The parentless root scope.
    pub fn initial() -> (r: Self)
        ensures
            r.wf(),
            r@.parent is None,
            r@.vars == Map::<Seq<char>, ValueRef>::empty(),
    {
        Scope { parent: None, variables: Vec::new() }
    }

    /// The binding of `identifier` in this scope alone; the chain walk
    /// lives with the machine, which owns the arena.
    pub fn get_variable(&self, identifier: &String) -> (r: Option<ValueRef>)
        ensures
            r == if self@.vars.contains_key(identifier@) {
                Some(self@.vars[identifier@])
            } else {
                None::<ValueRef>
            },
    {
        let ghost whole = self.variables@;
        let mut j: usize = self.variables.len();
        proof {
            assert(whole.take(j as int) =~= whole);
        }
        while j > 0
            invariant
                j <= self.variables.len(),
                whole == self.variables@,
                entries_map(whole).contains_key(identifier@) == entries_map(
                    whole.take(j as int),
                ).contains_key(identifier@),
                entries_map(whole).contains_key(identifier@) ==> entries_map(
                    whole,
                )[identifier@] == entries_map(whole.take(j as int))[identifier@],
            decreases j,
        {
            j = j - 1;
            let ghost upto = whole.take(j as int + 1);
            proof {
                assert(upto.drop_last() =~= whole.take(j as int));
                assert(upto.last() == whole[j as int]);
            }
            let entry = &self.variables[j];
            if entry.0 == *identifier {
                return Some(entry.1);
            }
        }
        proof {
            assert(whole.take(0) =~= Seq::<(String, ValueRef)>::empty());
        }
        None
    }

    /// Binds `identifier` in this scope, replacing this scope's own
    /// earlier binding of the name if there is one; ancestors are never
    /// touched.
    #[verifier::loop_isolation(false)]
    pub fn set_variable(&mut self, identifier: String, value: ValueRef)
        requires
            old(self).wf(),
        ensures
            final(self).wf(),
            final(self)@.parent == old(self)@.parent,
            final(self)@.vars == old(self)@.vars.insert(identifier@, value),
    {
        let ghost before = self.variables@;
        let ghost idv = identifier@;

        let mut j: usize = 0;
        while j < self.variables.len()
            invariant
                j <= self.variables.len(),
                before == self.variables@,
                self.parent == old(self).parent,
                forall|t: int| 0 <= t < j ==> before[t].0@ != idv,
            decreases self.variables.len() - j,
        {
            if self.variables[j].0 == identifier {
                self.variables.set(j, (identifier, value));
                proof {
                    lemma_entries_map_update(before, j as int, self.variables@[j as int]);
                }
                return ;
            }
            j = j + 1;
        }

        self.variables.push((identifier, value));
        proof {
            assert(self.variables@.drop_last() =~= before);
            assert(self.variables@.last().0@ == idv);
            lemma_entries_map_absent(before, idv);
        }
    }

    /// Sets the mark of every pool slot one of this scope's bindings
    /// refers to; all other marks are left as they are.
    #[verifier::loop_isolation(false)]
    pub fn mark_refs(&self, keep: &mut Vec<bool>)
        requires
            self.wf(),
        ensures
            final(keep)@.len() == old(keep)@.len(),
            forall|i: int|
                0 <= i < old(keep)@.len() ==> #[trigger] final(keep)@[i] == (old(keep)@[i]
                    || scope_refs(self@, i)),
    {
        let ghost entries = self.variables@;
        let ghost before = keep@;
        let total = keep.len();
        proof {
            assert(before.len() == total as int);
        }
        let mut j: usize = 0;
        while j < self.variables.len()
            invariant
                j <= self.variables.len(),
                entries == self.variables@,
                marks_upto(entries, before, keep@, j as int),
            decreases self.variables.len() - j,
        {
            let ghost prev = keep@;
            match self.variables[j].1 {
                ValueRef::Pooled(x) => {
                    if x < keep.len() {
                        keep.set(x, true);
                        proof {
                            lemma_marks_step(entries, before, prev, keep@, j as int);
                        }
                    } else {
                        proof {
                            lemma_marks_step(entries, before, prev, keep@, j as int);
                        }
                    }
                },
                ValueRef::NullRef => {
                    proof {
                        lemma_marks_step(entries, before, prev, keep@, j as int);
                    }
                },
            }
            j = j + 1;
        }
        proof {
            assert forall|i: int| 0 <= i < before.len() implies keep@[i] == (before[i]
                || scope_refs(self@, i)) by {
                assert(keep@[i] == (before[i] || (exists|t: int|
                    0 <= t < entries.len() && entries[t].1 == ValueRef::Pooled(i as usize))));
                if scope_refs(self@, i) {
                    let k = choose|k: Seq<char>|
                        self@.vars.contains_key(k) && self@.vars[k] == ValueRef::Pooled(
                            i as usize,
                        );
                    lemma_entries_map_covered(entries, k);
                    let j2 = choose|j2: int|
                        0 <= j2 < entries.len() && entries[j2].0@ == k && entries[j2].1
                            == entries_map(entries)[k];
                    assert(entries[j2].1 == ValueRef::Pooled(i as usize));
                }
                if exists|t: int|
                    0 <= t < entries.len() && entries[t].1 == ValueRef::Pooled(i as usize) {
                    let t = choose|t: int|
                        0 <= t < entries.len() && entries[t].1 == ValueRef::Pooled(i as usize);
                    lemma_entries_map_entry(entries, t);
                    assert(self@.vars.contains_key(entries[t].0@) && self@.vars[entries[t].0@]
                        == ValueRef::Pooled(i as usize));
                    assert(scope_refs(self@, i));
                }
            }
        }
    }
}

/// Marks after the first `j` bindings have been scanned: a slot is
/// marked when it was marked before or one of the scanned bindings
/// refers to it.
spec fn marks_upto(
    entries: Seq<(String, ValueRef)>,
    before: Seq<bool>,
    keep: Seq<bool>,
    j: int,
) -> bool {
    &&& keep.len() == before.len()
    &&& before.len() <= usize::MAX
    &&& forall|i: int|
        0 <= i < before.len() ==> keep[i] == (before[i] || exists|t: int|
            0 <= t < j && entries[t].1 == ValueRef::Pooled(i as usize))
}

/// Scanning one more binding extends the marks by exactly that
/// binding's reference, whether or not it pointed into the pool.
proof fn lemma_marks_step(
    entries: Seq<(String, ValueRef)>,
    before: Seq<bool>,
    prev: Seq<bool>,
    keep: Seq<bool>,
    j: int,
)
    requires
        0 <= j < entries.len(),
        marks_upto(entries, before, prev, j),
        match entries[j].1 {
            ValueRef::Pooled(x) => if (x as int) < before.len() {
                keep == prev.update(x as int, true)
            } else {
                keep == prev
            },
            ValueRef::NullRef => keep == prev,
        },
    ensures
        marks_upto(entries, before, keep, j + 1),
{
    assert forall|i: int| 0 <= i < before.len() implies keep[i] == (before[i] || (exists|t: int|
        0 <= t < j + 1 && entries[t].1 == ValueRef::Pooled(i as usize))) by {
        if entries[j].1 == ValueRef::Pooled(i as usize) {
            assert(keep[i]);
            assert(0 <= j < j + 1 && entries[j].1 == ValueRef::Pooled(i as usize));
        } else {
            assert(keep[i] == prev[i]);
            if exists|t: int| 0 <= t < j + 1 && entries[t].1 == ValueRef::Pooled(i as usize) {
                let t = choose|t: int|
                    0 <= t < j + 1 && entries[t].1 == ValueRef::Pooled(i as usize);
                assert(t < j);
            }
        }
    }
}

} // verus!
