//! The operand stack: a fixed-capacity, bounds-checked array of optional
//! value references.
//!
//! `stacki` always points at the last occupied slot, with `0` meaning
//! empty; slot `0` itself is never written. Every mutation is preceded
//! by a range check: pushing past the capacity and popping past the
//! bottom both fail with `StackOverflow`, and nothing is ever silently
//! truncated or grown. A pop leaves the slot contents in place, so a
//! popped value stays visible to the collector until the slot is
//! overwritten by a later push.

use vstd::prelude::*;
use vstd::string::StringExecFns;

use crate::error::ErrAt;
use crate::error::Error;
use crate::error::ErrorType;
use crate::error::VMErrorType;
use crate::error::err_at;
use crate::instruction::Instruction;
use crate::instruction::InstructionV;
use crate::value::ValueRef;

verus! {

/// Capacity of the operand stack, in slots.
pub const STACK_SIZE: usize = 512;

/// The operand stack.
#[derive(Debug)]
pub struct Stack {
    stacki: usize,
    stack: Vec<Option<ValueRef>>,
}

/// Model of a `Stack`.
#[verifier::ext_equal]
pub struct StackV {
    pub stacki: int,
    pub slots: Seq<Option<ValueRef>>,
}

impl View for Stack {
    type V = StackV;

    closed spec fn view(&self) -> StackV {
        StackV { stacki: self.stacki as int, slots: self.stack@ }
    }
}

/// The error a failed range check reports: a stack overflow carrying the
/// capacity and the offending index.
pub open spec fn range_err(st: StackV, instruction: InstructionV, index_diff: int) -> ErrAt {
    ErrAt {
        offset: instruction.offset,
        width: instruction.width,
        error_type: ErrorType::VMError(
            VMErrorType::StackOverflow {
                stack_size: STACK_SIZE,
                index: (st.stacki + index_diff) as i32,
            },
        ),
    }
}

impl Stack {
    /// Structural soundness: full capacity allocated, index in range.
    pub open spec fn wf(&self) -> bool {
        self@.slots.len() == STACK_SIZE && 0 <= self@.stacki < STACK_SIZE
    }

    /// An empty stack at full capacity.
    pub fn new() -> (r: Self)
        ensures
            r.wf(),
            r@.stacki == 0,
            r@.slots == Seq::new(STACK_SIZE as nat, |i: int| None::<ValueRef>),
    {
        let mut stack: Vec<Option<ValueRef>> = Vec::new();
        let mut i: usize = 0;
        while i < STACK_SIZE
            invariant
                i <= STACK_SIZE,
                stack@.len() == i,
                forall|j: int| 0 <= j < i ==> stack@[j] is None,
            decreases STACK_SIZE - i,
        {
            stack.push(None);
            i = i + 1;
        }
        let r = Stack { stacki: 0, stack };
        proof {
            assert(r@.slots =~= Seq::new(STACK_SIZE as nat, |i: int| None::<ValueRef>));
        }
        r
    }

    /// Checks that moving the stack index by `index_diff` stays in
    /// range; the instruction is what a failure is blamed on.
    pub fn check_range(&self, instruction: &Instruction, index_diff: i32) -> (r: Result<(), Error>)
        requires
            self.wf(),
        ensures
            match r {
                Ok(()) => 0 <= self@.stacki + index_diff < STACK_SIZE,
                Err(e) => !(0 <= self@.stacki + index_diff < STACK_SIZE) && err_at(e)
                    == range_err(self@, instruction@, index_diff as int),
            },
    {
        let index: i64 = self.stacki as i64 + index_diff as i64;
        if index < 0 || index >= STACK_SIZE as i64 {
            Err(
                Error::new(
                    instruction.offset,
                    instruction.width,
                    ErrorType::VMError(
                        VMErrorType::StackOverflow {
                            stack_size: STACK_SIZE,
                            index: #[verifier::truncate] (index as i32),
                        },
                    ),
                ).with_description(String::from_str("stack index out of range")),
            )
        } else {
            Ok(())
        }
    }

    /// Pushes a reference onto the next slot, or fails with a stack
    /// overflow when all slots above the bottom are occupied.
    pub fn push(&mut self, instruction: &Instruction, val: ValueRef) -> (r: Result<(), Error>)
        requires
            old(self).wf(),
        ensures
            final(self).wf(),
            match r {
                Ok(()) => old(self)@.stacki + 1 < STACK_SIZE && final(self)@.stacki == old(
                    self,
                )@.stacki + 1 && final(self)@.slots == old(self)@.slots.update(
                    old(self)@.stacki + 1,
                    Some(val),
                ),
                Err(e) => final(self)@ == old(self)@ && old(self)@.stacki + 1 >= STACK_SIZE
                    && err_at(e) == range_err(old(self)@, instruction@, 1),
            },
    {
        match self.check_range(instruction, 1) {
            Ok(()) => {},
            Err(e) => {
                return Err(e);
            },
        }

        self.stacki = self.stacki + 1;
        self.stack.set(self.stacki, Some(val));

        Ok(())
    }

    /// Pops the top reference. Popping an empty stack fails with a stack
    /// overflow below the bottom; a top slot that holds nothing fails
    /// with `StackElementUninitialized` (the index is still consumed).
    pub fn pop(&mut self, instruction: &Instruction) -> (r: Result<ValueRef, Error>)
        requires
            old(self).wf(),
        ensures
            final(self).wf(),
            final(self)@.slots == old(self)@.slots,
            match r {
                Ok(v) => old(self)@.stacki >= 1 && final(self)@.stacki == old(self)@.stacki - 1
                    && old(self)@.slots[old(self)@.stacki] == Some(v),
                Err(e) => if old(self)@.stacki == 0 {
                    final(self)@ == old(self)@ && err_at(e) == range_err(
                        old(self)@,
                        instruction@,
                        -1,
                    )
                } else {
                    final(self)@.stacki == old(self)@.stacki - 1 && old(self)@.slots[old(
                        self,
                    )@.stacki] is None && err_at(e) == (ErrAt {
                        offset: instruction@.offset,
                        width: instruction@.width,
                        error_type: ErrorType::VMError(VMErrorType::StackElementUninitialized),
                    })
                },
            },
    {
        match self.check_range(instruction, -1) {
            Ok(()) => {},
            Err(e) => {
                return Err(e);
            },
        }

        self.stacki = self.stacki - 1;
        match self.stack[self.stacki + 1] {
            Some(v) => Ok(v),
            None => Err(
                Error::new(
                    instruction.offset,
                    instruction.width,
                    ErrorType::VMError(VMErrorType::StackElementUninitialized),
                ),
            ),
        }
    }
}


/// Some slot of the stack (occupied or stale) refers to pool slot `i`.
pub open spec fn stack_refs(st: StackV, i: int) -> bool {
    exists|j: int| 0 <= j < st.slots.len() && st.slots[j] == Some(ValueRef::Pooled(i as usize))
}

impl Stack {
    /// Sets the mark of every pool slot some stack slot refers to; all
    /// other marks are left as they are. Stale slots above the stack
    /// index count: their contents stay visible until overwritten.
    #[verifier::loop_isolation(false)]
    pub fn mark_refs(&self, keep: &mut Vec<bool>)
        ensures
            final(keep)@.len() == old(keep)@.len(),
            forall|i: int|
                0 <= i < old(keep)@.len() ==> #[trigger] final(keep)@[i] == (old(keep)@[i]
                    || stack_refs(self@, i)),
    {
        let ghost slots = self.stack@;
        let ghost before = keep@;
        let total = keep.len();
        proof {
            assert(before.len() == total as int);
        }
        let mut j: usize = 0;
        while j < self.stack.len()
            invariant
                j <= self.stack.len(),
                slots == self.stack@,
                slot_marks_upto(slots, before, keep@, j as int),
            decreases self.stack.len() - j,
        {
            let ghost prev = keep@;
            match self.stack[j] {
                Some(ValueRef::Pooled(x)) => {
                    if x < keep.len() {
                        keep.set(x, true);
                        proof {
                            lemma_slot_marks_step(slots, before, prev, keep@, j as int);
                        }
                    } else {
                        proof {
                            lemma_slot_marks_step(slots, before, prev, keep@, j as int);
                        }
                    }
                },
                _ => {
                    proof {
                        lemma_slot_marks_step(slots, before, prev, keep@, j as int);
                    }
                },
            }
            j = j + 1;
        }
    }
}

/// Marks after the first `j` slots have been scanned: a pool slot is
/// marked when it was marked before or one of the scanned stack slots
/// refers to it.
spec fn slot_marks_upto(
    slots: Seq<Option<ValueRef>>,
    before: Seq<bool>,
    keep: Seq<bool>,
    j: int,
) -> bool {
    &&& keep.len() == before.len()
    &&& before.len() <= usize::MAX
    &&& forall|i: int|
        0 <= i < before.len() ==> keep[i] == (before[i] || exists|t: int|
            0 <= t < j && slots[t] == Some(ValueRef::Pooled(i as usize)))
}

/// Scanning one more slot extends the marks by exactly that slot's
/// reference, whether or not it pointed into the pool.
proof fn lemma_slot_marks_step(
    slots: Seq<Option<ValueRef>>,
    before: Seq<bool>,
    prev: Seq<bool>,
    keep: Seq<bool>,
    j: int,
)
    requires
        0 <= j < slots.len(),
        slot_marks_upto(slots, before, prev, j),
        match slots[j] {
            Some(r) => match r {
                ValueRef::Pooled(x) => if (x as int) < before.len() {
                    keep == prev.update(x as int, true)
                } else {
                    keep == prev
                },
                ValueRef::NullRef => keep == prev,
            },
            None => keep == prev,
        },
    ensures
        slot_marks_upto(slots, before, keep, j + 1),
{
    assert forall|i: int| 0 <= i < before.len() implies keep[i] == (before[i] || (exists|t: int|
        0 <= t < j + 1 && slots[t] == Some(ValueRef::Pooled(i as usize)))) by {
        if slots[j] == Some(ValueRef::Pooled(i as usize)) {
            assert(keep[i]);
            assert(0 <= j < j + 1 && slots[j] == Some(ValueRef::Pooled(i as usize)));
        } else {
            assert(keep[i] == prev[i]);
            if exists|t: int| 0 <= t < j + 1 && slots[t] == Some(ValueRef::Pooled(i as usize)) {
                let t = choose|t: int|
                    0 <= t < j + 1 && slots[t] == Some(ValueRef::Pooled(i as usize));
                assert(t < j);
            }
        }
    }
}

} // verus!
