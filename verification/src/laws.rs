//! Laws of the machine and of the compiler, stated against the
//! semantic model and proved once and for all.

use vstd::prelude::*;

use crate::ast::ExpressionTypeV;
use crate::ast::ExpressionV;
use crate::ast::LiteralV;
use crate::ast::PrimaryV;
use crate::ast::Token;
use crate::compiler::binary_code;
use crate::compiler::compile_expr;
use crate::error::ErrAt;
use crate::error::ErrorType;
use crate::error::VMErrorType;
use crate::instruction::CodeV;
use crate::instruction::InstructionV;
use crate::stack::STACK_SIZE;
use crate::value::ValueRef;
use crate::value::ValueV;
use crate::value::render_view;
use crate::vm::MachineV;
use crate::vm::binary_result;
use crate::vm::init_machine;
use crate::vm::referenced;
use crate::vm::StepV;
use crate::vm::sem_compute;
use crate::vm::sem_create;
use crate::vm::sem_instr;
use crate::vm::sem_deref;
use crate::vm::sem_exec;
use crate::vm::sem_gc;
use crate::vm::sem_lookup;
use crate::vm::sem_pop;
use crate::vm::sem_push;
use crate::vm::sem_resolve;
use crate::vm::sem_run;
use crate::vm::sem_set_var;
use crate::vm::sem_tick;
use crate::vm::tdiv;
use crate::vm::vm_err;
use crate::vm::wrap_i32;

verus! {

/// Mixed Int/Float arithmetic always promotes to Float: whenever one
/// operand of an arithmetic opcode is a Float and the other is an Int
/// or a Float, the operation succeeds and its result is a Float.
pub proof fn lemma_mixed_arithmetic_promotes(code: CodeV, a: ValueV, b: ValueV)
    requires
        code is Add || code is Subtract || code is Multiply || code is Divide,
        (a is Int && b is Float) || (a is Float && b is Int) || (a is Float && b is Float),
    ensures
        binary_result(code, a, b) matches Some(v) && v is Float,
{
}

/// Every binary opcode on two String operands has no result: the
/// machine supports no operation on that pairing.
pub proof fn lemma_binary_on_strings(code: CodeV, a: Seq<char>, b: Seq<char>)
    ensures
        binary_result(code, ValueV::String(a), ValueV::String(b)) is None,
{
}

/// An arithmetic instruction whose two operands resolve to Strings
/// fails with `OperationNotSupported`, leaving the machine exactly as
/// the two pops left it: nothing is pushed and nothing else changes.
pub proof fn lemma_strings_fail(m: MachineV, scope: usize, iv: InstructionV)
    requires
        ({
            let (m1, r1) = sem_pop(m, iv);
            &&& r1 is Ok
            &&& ({
                let (m2, r2) = sem_pop(m1, iv);
                &&& r2 is Ok
                &&& sem_deref(m2, sem_resolve(m2, scope as int, r2->Ok_0)) is String
                &&& sem_deref(m2, sem_resolve(m2, scope as int, r1->Ok_0)) is String
            })
        }),
    ensures
        ({
            let (m1, r1) = sem_pop(m, iv);
            let (m2, r2) = sem_pop(m1, iv);
            sem_compute(m, scope, iv) == (
                m2,
                Err::<(), ErrAt>(vm_err(iv, VMErrorType::OperationNotSupported)),
            )
        }),
{
}

/// Assignment round-trip: after `id` is bound in a scope, a lookup of
/// `id` from that scope resolves to exactly the bound reference.
pub proof fn lemma_assign_round_trip(m: MachineV, scope: usize, id: Seq<char>, r: ValueRef)
    requires
        (scope as int) < m.scopes.len(),
    ensures
        sem_lookup(sem_set_var(m, scope as int, id, r).scopes, scope as int, id) == Some(r),
{
}

/// Binding a name in one scope never alters any other scope: an
/// assignment inside a function's child scope shadows a same-named
/// binding of an enclosing scope rather than mutating it.
pub proof fn lemma_assign_shadows(m: MachineV, child: usize, other: int, id: Seq<char>, r:
    ValueRef)
    requires
        0 <= other < m.scopes.len(),
        other != child as int,
    ensures
        sem_set_var(m, child as int, id, r).scopes[other] == m.scopes[other],
{
}

/// Stack overflow leaves the machine intact: a push onto a full stack
/// fails with `StackOverflow` carrying the capacity and the offending
/// index, and corrupts nothing — the machine is exactly what it was.
pub proof fn lemma_stack_overflow(m: MachineV, iv: InstructionV, r: ValueRef)
    requires
        m.stack.stacki + 1 >= STACK_SIZE,
    ensures
        sem_push(m, iv, r) == (
            m,
            Err::<(), ErrAt>(crate::stack::range_err(m.stack, iv, 1)),
        ),
        crate::stack::range_err(m.stack, iv, 1).error_type == ErrorType::VMError(
            VMErrorType::StackOverflow {
                stack_size: STACK_SIZE,
                index: (m.stack.stacki + 1) as i32,
            },
        ),
{
}

/// How many pool slots hold a value.
pub open spec fn occupied_count(pool: Seq<Option<ValueV>>) -> nat
    decreases pool.len(),
{
    if pool.len() == 0 {
        0
    } else {
        occupied_count(pool.drop_last()) + (if pool.last() is Some {
            1nat
        } else {
            0nat
        })
    }
}

proof fn lemma_occupied_count_le(p1: Seq<Option<ValueV>>, p2: Seq<Option<ValueV>>)
    requires
        p1.len() == p2.len(),
        forall|i: int| 0 <= i < p2.len() ==> p2[i] is Some ==> p2[i] == p1[i],
    ensures
        occupied_count(p2) <= occupied_count(p1),
    decreases p1.len(),
{
    if p1.len() > 0 {
        assert(forall|i: int|
            0 <= i < p2.drop_last().len() ==> p2.drop_last()[i] == p2[i] && p1.drop_last()[i]
                == p1[i]);
        lemma_occupied_count_le(p1.drop_last(), p2.drop_last());
        assert(p2.last() == p2[p1.len() - 1]);
        assert(p1.last() == p1[p1.len() - 1]);
    }
}

/// Pool collection: a sweep keeps, unchanged and at its index, every
/// value still referenced from a stack slot or a scope binding, frees
/// everything else, and never grows the pool: the number of occupied
/// slots after a sweep is at most the number before.
pub proof fn lemma_gc_preserves_reachable(m: MachineV)
    ensures
        sem_gc(m).pool.len() == m.pool.len(),
        forall|i: int|
            0 <= i < m.pool.len() && referenced(m, i) ==> sem_gc(m).pool[i] == m.pool[i],
        forall|i: int| 0 <= i < m.pool.len() && !referenced(m, i) ==> sem_gc(m).pool[i] is None,
        occupied_count(sem_gc(m).pool) <= occupied_count(m.pool),
{
    lemma_occupied_count_le(m.pool, sem_gc(m).pool);
}


/// An expression built of integer literals combined with the four
/// arithmetic operators.
pub open spec fn int_arith_expr(e: ExpressionV) -> bool
    decreases e,
{
    match e.expression_type {
        ExpressionTypeV::Primary(p) => p matches PrimaryV::Literal(LiteralV::Int(_)),
        ExpressionTypeV::Binary { left, right, operator, .. } => {
            &&& (operator == Token::Plus || operator == Token::Minus || operator == Token::Asterix
                || operator == Token::FSlash)
            &&& int_arith_expr(*left)
            &&& int_arith_expr(*right)
        },
        _ => false,
    }
}

/// Exact mathematical evaluation of such an expression, with division
/// truncating toward zero; no result on division by zero or when any
/// intermediate value leaves the 32-bit range.
pub open spec fn eval_int(e: ExpressionV) -> Option<int>
    decreases e,
{
    match e.expression_type {
        ExpressionTypeV::Primary(p) => match p {
            PrimaryV::Literal(l) => match l {
                LiteralV::Int(i) => Some(i as int),
                _ => None,
            },
            _ => None,
        },
        ExpressionTypeV::Binary { left, right, operator, .. } => {
            match (eval_int(*left), eval_int(*right)) {
                (Some(x), Some(y)) => {
                    if operator == Token::FSlash && y == 0 {
                        None
                    } else {
                        let v = if operator == Token::Plus {
                            x + y
                        } else if operator == Token::Minus {
                            x - y
                        } else if operator == Token::Asterix {
                            x * y
                        } else {
                            tdiv(x, y)
                        };
                        if i32::MIN <= v <= i32::MAX {
                            Some(v)
                        } else {
                            None
                        }
                    }
                },
                _ => None,
            }
        },
        _ => None,
    }
}

/// How many operand slots evaluating the expression needs above the
/// current stack top.
pub open spec fn stack_need(e: ExpressionV) -> int
    decreases e,
{
    match e.expression_type {
        ExpressionTypeV::Binary { left, right, .. } => {
            let l = stack_need(*left);
            let r = 1 + stack_need(*right);
            if l >= r {
                l
            } else {
                r
            }
        },
        _ => 1,
    }
}

/// Evaluation always needs at least one operand slot.
proof fn lemma_stack_need_pos(e: ExpressionV)
    ensures
        stack_need(e) >= 1,
    decreases e,
{
    match e.expression_type {
        ExpressionTypeV::Binary { left, right, .. } => {
            lemma_stack_need_pos(*right);
        },
        _ => {},
    }
}

/// The compiler accepts every integer arithmetic expression.
pub proof fn lemma_arith_compiles(e: ExpressionV)
    requires
        int_arith_expr(e),
    ensures
        compile_expr(e) is Ok,
    decreases e,
{
    match e.expression_type {
        ExpressionTypeV::Binary { left, right, operator, .. } => {
            lemma_arith_compiles(*left);
            lemma_arith_compiles(*right);
        },
        _ => {},
    }
}

/// Every slot at or below the old stack top is untouched, the pool
/// only grew, and every pool slot such a stack slot refers to still
/// holds the same value.
pub open spec fn live_preserved(m: MachineV, m2: MachineV) -> bool {
    &&& m2.pool.len() >= m.pool.len()
    &&& forall|j: int|
        0 <= j <= m.stack.stacki ==> #[trigger] m2.stack.slots[j] == m.stack.slots[j] && (
        match m.stack.slots[j] {
            Some(r) => match r {
                ValueRef::Pooled(ri) => (ri as int) < m.pool.len() ==> m2.pool[ri as int]
                    == m.pool[ri as int],
                ValueRef::NullRef => true,
            },
            None => true,
        })
}

/// Executing `n` instructions starting at `at` took the machine from
/// `m` to `m2`: one new pooled value, the integer `v`, now sits on top
/// of the stack, everything below is untouched, and the remaining
/// execution from `at + n` decides the overall run.
pub open spec fn arith_step(
    p: Seq<InstructionV>,
    m: MachineV,
    m2: MachineV,
    scope: usize,
    at: int,
    n: int,
    depth: nat,
    v: int,
) -> bool {
    &&& sem_exec(p, m, scope, at, depth) == sem_exec(p, m2, scope, at + n, depth)
    &&& m2.stack.slots.len() == m.stack.slots.len()
    &&& m2.stack.stacki == m.stack.stacki + 1
    &&& m2.scopes == m.scopes
    &&& m2.pool.len() <= m.pool.len() + n
    &&& live_preserved(m, m2)
    &&& (m2.stack.slots[m.stack.stacki + 1] matches Some(r) && r matches ValueRef::Pooled(ri)
        && (ri as int) < m2.pool.len() && m2.pool[ri as int] == Some(ValueV::Int(v as i32)))
}

/// The bookkeeping step touches neither the stack nor the scopes, and
/// a sweep it may run keeps every pool slot a stack slot refers to.
proof fn lemma_tick_slots(m: MachineV)
    ensures
        sem_tick(m).stack == m.stack,
        sem_tick(m).scopes == m.scopes,
        sem_tick(m).pool.len() == m.pool.len(),
        forall|j: int, ri: int|
            #![trigger m.stack.slots[j], sem_tick(m).pool[ri]]
            0 <= j < m.stack.slots.len() && 0 <= ri < m.pool.len() && m.stack.slots[j] == Some(
                ValueRef::Pooled(ri as usize),
            ) ==> sem_tick(m).pool[ri] == m.pool[ri],
{
    let m1 = MachineV { counter: m.counter + 1, ..m };
    if m1.counter > crate::vm::GC_INSTRUCTION_COUNT {
        assert forall|j: int, ri: int|
            0 <= j < m.stack.slots.len() && 0 <= ri < m.pool.len() && m.stack.slots[j] == Some(
                ValueRef::Pooled(ri as usize),
            ) implies sem_tick(m).pool[ri] == m.pool[ri] by {
            assert(m1.stack.slots[j] == Some(ValueRef::Pooled(ri as usize)));
            assert(crate::stack::stack_refs(m1.stack, ri));
            assert(referenced(m1, ri));
        }
    }
}

/// Every value the evaluation yields fits in 32 bits.
proof fn lemma_eval_in_range(e: ExpressionV)
    requires
        eval_int(e) is Some,
    ensures
        i32::MIN <= eval_int(e)->Some_0 <= i32::MAX,
    decreases e,
{
}

/// The induction at the heart of the arithmetic correctness law:
/// running the compiled form of an integer arithmetic expression
/// pushes exactly the value the expression evaluates to.
#[verifier::rlimit(100)]
proof fn lemma_exec_arith(
    p: Seq<InstructionV>,
    m: MachineV,
    scope: usize,
    at: int,
    depth: nat,
    e: ExpressionV,
)
    requires
        int_arith_expr(e),
        eval_int(e) is Some,
        compile_expr(e) is Ok,
        m.stack.slots.len() == STACK_SIZE,
        0 <= m.stack.stacki,
        m.stack.stacki + stack_need(e) < STACK_SIZE,
        0 <= at,
        at + compile_expr(e)->Ok_0.len() <= p.len(),
        m.pool.len() + compile_expr(e)->Ok_0.len() <= usize::MAX,
        p.subrange(at, at + compile_expr(e)->Ok_0.len() as int) == compile_expr(e)->Ok_0,
    ensures
        exists|m2: MachineV|
            arith_step(
                p,
                m,
                m2,
                scope,
                at,
                compile_expr(e)->Ok_0.len() as int,
                depth,
                eval_int(e)->Some_0,
            ),
    decreases e,
{
    let code = compile_expr(e)->Ok_0;
    let n = code.len() as int;
    let v = eval_int(e)->Some_0;
    lemma_eval_in_range(e);
    match e.expression_type {
        ExpressionTypeV::Primary(pr) => match pr {
            PrimaryV::Literal(l) => match l {
                LiteralV::Int(i) => {
                    assert(n == 1);
                    assert(p.subrange(at, at + 1)[0] == p[at]);
                    let iv = p[at];
                    assert(iv == code[0]);
                    assert(iv.code == CodeV::PushNum(i));

                    let (mc, rr) = sem_create(m, ValueV::Int(i));
                    let (mp, pres) = sem_push(mc, iv, rr);
                    assert(0 <= m.stack.stacki + 1 < STACK_SIZE);
                    assert(pres is Ok);
                    assert(sem_instr(p, m, scope, at, depth) == StepV::Next(mp, at + 1));
                    assert(sem_exec(p, m, scope, at, depth) == sem_exec(
                        p,
                        sem_tick(mp),
                        scope,
                        at + 1,
                        depth,
                    ));
                    lemma_tick_slots(mp);
                    let m2 = sem_tick(mp);
                    assert(mp.stack.slots =~= m.stack.slots.update(
                        m.stack.stacki + 1,
                        Some(rr),
                    ));
                    assert(rr == ValueRef::Pooled(m.pool.len() as usize));
                    assert(mp.stack.slots[m.stack.stacki + 1] == Some(rr));
                    assert(m2.pool[m.pool.len() as int] == Some(ValueV::Int(v as i32)));
                    assert(live_preserved(m, m2));
                    assert(arith_step(p, m, m2, scope, at, n, depth, v));
                },
                _ => {},
            },
            _ => {},
        },
        ExpressionTypeV::Binary { left, right, operator, offset, width } => {
            let codel = compile_expr(*left)->Ok_0;
            let coder = compile_expr(*right)->Ok_0;
            let nl = codel.len() as int;
            let nr = coder.len() as int;
            let opcode = binary_code(operator)->Some_0;
            let iv_op = InstructionV { offset, width, code: opcode };
            assert(compile_expr(*left) is Ok);
            assert(compile_expr(*right) is Ok);
            assert(code == codel + coder + seq![iv_op]);
            assert(n == nl + nr + 1);

            let x = eval_int(*left)->Some_0;
            let y = eval_int(*right)->Some_0;
            lemma_eval_in_range(*left);
            lemma_eval_in_range(*right);
            lemma_stack_need_pos(*left);
            lemma_stack_need_pos(*right);

            assert forall|i: int| 0 <= i < nl implies #[trigger] p.subrange(at, at + nl)[i]
                == codel[i] by {
                assert(p.subrange(at, at + n)[i] == code[i]);
                assert(code[i] == codel[i]);
            }
            assert(p.subrange(at, at + nl) =~= codel);

            lemma_exec_arith(p, m, scope, at, depth, *left);
            let ml = choose|mm: MachineV| #[trigger] arith_step(p, m, mm, scope, at, nl, depth, x);

            assert forall|i: int| 0 <= i < nr implies #[trigger] p.subrange(
                at + nl,
                at + nl + nr,
            )[i] == coder[i] by {
                assert(p.subrange(at, at + n)[nl + i] == code[nl + i]);
                assert(code[nl + i] == coder[i]);
            }
            assert(p.subrange(at + nl, at + nl + nr) =~= coder);

            lemma_exec_arith(p, ml, scope, at + nl, depth, *right);
            let mr = choose|mm: MachineV| #[trigger] arith_step(p, ml, mm, scope, at + nl, nr, depth, y);

            // the operator instruction
            let opat = at + nl + nr;
            assert(p.subrange(at, at + n)[opat - at] == code[opat - at]);
            let iv2 = p[opat];
            assert(iv2 == iv_op);

            // the two operand references
            assert(mr.stack.stacki == m.stack.stacki + 2);
            let slot_r = mr.stack.slots[m.stack.stacki + 2];
            let slot_l = mr.stack.slots[m.stack.stacki + 1];
            assert(slot_r matches Some(rrr) && rrr matches ValueRef::Pooled(rri) && (rri as int)
                < mr.pool.len() && mr.pool[rri as int] == Some(ValueV::Int(y as i32)));
            assert(ml.stack.slots[m.stack.stacki + 1] matches Some(rr2) && rr2 matches
                ValueRef::Pooled(ri2) && (ri2 as int) < ml.pool.len() && ml.pool[ri2 as int]
                == Some(ValueV::Int(x as i32)));
            assert(slot_l == ml.stack.slots[m.stack.stacki + 1]);
            assert(slot_l matches Some(rl) && rl matches ValueRef::Pooled(rli) && (rli as int)
                < mr.pool.len() && mr.pool[rli as int] == Some(ValueV::Int(x as i32)));

            let rr_ref = slot_r->0;
            let rl_ref = slot_l->0;

            // the pops
            let (mp1, q1) = sem_pop(mr, iv2);
            assert(0 <= mr.stack.stacki - 1 < STACK_SIZE);
            assert(mr.stack.slots[mr.stack.stacki] == slot_r);
            assert(slot_r is Some);
            assert(q1 == Ok::<ValueRef, ErrAt>(rr_ref));
            let (mp2, q2) = sem_pop(mp1, iv2);
            assert(0 <= mp1.stack.stacki - 1 < STACK_SIZE);
            assert(mp1.stack.slots[mp1.stack.stacki] == slot_l);
            assert(q2 == Ok::<ValueRef, ErrAt>(rl_ref));
            assert(mp2.pool == mr.pool);

            // resolution is the identity on concrete values
            assert(sem_deref(mp2, rl_ref) == ValueV::Int(x as i32));
            assert(sem_deref(mp2, rr_ref) == ValueV::Int(y as i32));
            assert(sem_resolve(mp2, scope as int, rl_ref) == rl_ref);
            assert(sem_resolve(mp2, scope as int, rr_ref) == rr_ref);

            // the arithmetic itself
            let a = ValueV::Int(x as i32);
            let b = ValueV::Int(y as i32);
            if operator == Token::FSlash {
                assert(y != 0);
                assert((y as i32) != 0);
                assert(binary_result(opcode, a, b) == Some(ValueV::Int(wrap_i32(tdiv(x, y)))));
                assert(wrap_i32(tdiv(x, y)) == v as i32);
            } else if operator == Token::Plus {
                assert(binary_result(opcode, a, b) == Some(ValueV::Int(wrap_i32(x + y))));
                assert(wrap_i32(x + y) == v as i32);
            } else if operator == Token::Minus {
                assert(binary_result(opcode, a, b) == Some(ValueV::Int(wrap_i32(x - y))));
                assert(wrap_i32(x - y) == v as i32);
            } else {
                assert(binary_result(opcode, a, b) == Some(ValueV::Int(wrap_i32(x * y))));
                assert(wrap_i32(x * y) == v as i32);
            }
            assert(binary_result(iv2.code, a, b) == Some(ValueV::Int(v as i32)));

            // allocate and push the result
            let (mc, rn) = sem_create(mp2, ValueV::Int(v as i32));
            let (mpu, q3) = sem_push(mc, iv2, rn);
            assert(mc.stack.stacki == m.stack.stacki);
            assert(0 <= mc.stack.stacki + 1 < STACK_SIZE);
            assert(q3 is Ok);
            assert(sem_compute(mr, scope, iv2) == (mpu, Ok::<(), ErrAt>(())));
            assert(sem_instr(p, mr, scope, opat, depth) == StepV::Next(mpu, opat + 1));
            assert(opat < p.len());
            assert(sem_exec(p, mr, scope, opat, depth) == sem_exec(
                p,
                sem_tick(mpu),
                scope,
                at + n,
                depth,
            ));
            lemma_tick_slots(mpu);
            let m2 = sem_tick(mpu);

            // the new value survives any sweep: its slot refers to it
            assert(rn == ValueRef::Pooled(mp2.pool.len() as usize));
            assert(mpu.stack.slots =~= mr.stack.slots.update(m.stack.stacki + 1, Some(rn)));
            assert(mpu.stack.slots[m.stack.stacki + 1] == Some(rn));
            assert(m2.pool[mp2.pool.len() as int] == Some(ValueV::Int(v as i32)));
            assert(m2.stack.stacki == m.stack.stacki + 1);
            assert(m2.scopes == m.scopes);

            // everything at or below the old top is untouched
            assert forall|j: int| 0 <= j <= m.stack.stacki implies #[trigger] m2.stack.slots[j]
                == m.stack.slots[j] && (match m.stack.slots[j] {
                Some(r) => match r {
                    ValueRef::Pooled(ri) => (ri as int) < m.pool.len() ==> m2.pool[ri as int]
                        == m.pool[ri as int],
                    ValueRef::NullRef => true,
                },
                None => true,
            }) by {
                assert(ml.stack.slots[j] == m.stack.slots[j]);
                assert(mr.stack.slots[j] == ml.stack.slots[j]);
                assert(m2.stack.slots[j] == mr.stack.slots[j]);
                match m.stack.slots[j] {
                    Some(r) => match r {
                        ValueRef::Pooled(ri) => {
                            if (ri as int) < m.pool.len() {
                                assert(ml.pool[ri as int] == m.pool[ri as int]);
                                assert(mr.pool[ri as int] == ml.pool[ri as int]);
                                assert(mpu.pool[ri as int] == mr.pool[ri as int]);
                                assert(mpu.stack.slots[j] == Some(ValueRef::Pooled(ri)));
                                assert(m2.pool[ri as int] == mpu.pool[ri as int]);
                            }
                        },
                        ValueRef::NullRef => {},
                    },
                    None => {},
                }
            }
            assert(live_preserved(m, m2));
            assert(arith_step(p, m, m2, scope, at, n, depth, v));
        },
        _ => {},
    }
}


/// For every program that is the compiled form of one expression of
/// integer literals combined with `+ - * /` (and that the expression
/// fits the machine: its evaluation stays in 32 bits, divides by zero
/// nowhere, and needs fewer operand slots than the stack holds): a
/// fresh machine runs the program to completion and the rendered
/// result is exactly the integer the expression evaluates to under
/// exact arithmetic with division truncating toward zero.
pub proof fn lemma_int_arith_program(e: ExpressionV, p: Seq<InstructionV>)
    requires
        int_arith_expr(e),
        eval_int(e) is Some,
        compile_expr(e) is Ok,
        p == compile_expr(e)->Ok_0,
        stack_need(e) < STACK_SIZE,
        p.len() <= usize::MAX,
    ensures
        ({
            let (m2, res) = sem_run(p, init_machine(), 0, 0);
            res matches Ok(text) && text == render_view(
                ValueV::Int((eval_int(e)->Some_0) as i32),
            )
        }),
{
    let m0 = init_machine();
    let v = eval_int(e)->Some_0;
    let depth = crate::vm::CALL_DEPTH as nat;
    assert(p.subrange(0, p.len() as int) =~= p);
    lemma_exec_arith(p, m0, 0, 0, depth, e);
    let m2 = choose|mm: MachineV|
        #[trigger] arith_step(p, m0, mm, 0, 0, p.len() as int, depth, v);
    assert(sem_exec(p, m2, 0, p.len() as int, depth) == (m2, Ok::<(), ErrAt>(())));
    assert(sem_exec(p, m0, 0, 0, depth) == (m2, Ok::<(), ErrAt>(())));

    // the run pops the single value left on the stack and renders it
    let iv0 = crate::vm::null_instr();
    let (m3, pr) = sem_pop(m2, iv0);
    assert(m2.stack.stacki == 1);
    assert(0 <= m2.stack.stacki - 1 < STACK_SIZE);
    let slot = m2.stack.slots[1];
    assert(slot matches Some(r) && r matches ValueRef::Pooled(ri) && (ri as int) < m2.pool.len()
        && m2.pool[ri as int] == Some(ValueV::Int(v as i32)));
    assert(pr == Ok::<ValueRef, ErrAt>(slot->0));
    assert(m3.pool == m2.pool);
    assert(sem_deref(m3, slot->0) == ValueV::Int(v as i32));
    assert(sem_resolve(m3, 0, slot->0) == slot->0);
}

} // verus!

