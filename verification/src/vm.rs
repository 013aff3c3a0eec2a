//! The virtual machine: a scoped stack machine over a flat program.
//!
//! The whole engine is specified by the `sem_*` spec functions, a
//! small-step account of one machine: a pool of values, the operand
//! stack, the scope arena, and the shared instruction counter. Every
//! executable method of `VMInstance` and `VM` is proved to carry the
//! machine exactly as the model says.
//!
//! Control flow is pure index arithmetic: `PushFunction` skips its
//! inlined body, `CallFunction` runs the trailing argument block and
//! then the body in a fresh child scope, and `Return` (or the end of
//! the program) closes the innermost block. Call nesting is bounded by
//! `CALL_DEPTH`; a program that nests deeper stops with a stack
//! overflow of the call stack, the one way a runaway program is cut
//! short.
//!
//! The collector runs after every `GC_INSTRUCTION_COUNT` executed
//! instructions and frees exactly the pool slots that no stack slot and
//! no scope binding refers to.

use vstd::prelude::*;
use vstd::string::StringExecFns;

use crate::error::ErrAt;
use crate::error::Error;
use crate::error::ErrorType;
use crate::error::VMErrorType;
use crate::error::err_at;
use crate::float::float_add;
use crate::float::float_div;
use crate::float::float_mul;
use crate::float::float_of_int;
use crate::float::float_sub;
use crate::instruction::Code;
use crate::instruction::CodeV;
use crate::instruction::Instruction;
use crate::instruction::InstructionV;
use crate::instruction::Program;
use crate::instruction::program_view;
use crate::pool::Pool;
use crate::pool::pool_at;
use crate::scope::Scope;
use crate::scope::ScopeV;
use crate::scope::scope_refs;
use crate::stack::STACK_SIZE;
use crate::stack::Stack;
use crate::stack::StackV;
use crate::stack::range_err;
use crate::stack::stack_refs;
use crate::value::Value;
use crate::value::ValueRef;
use crate::value::ValueV;
use crate::value::render_view;

verus! {

/// How many instructions may run between two collector sweeps.
pub const GC_INSTRUCTION_COUNT: usize = 50;

/// How deep calls may nest before the machine reports a stack overflow
/// of the call stack.
pub const CALL_DEPTH: usize = 100;

/// The whole state of one machine.
#[verifier::ext_equal]
pub struct MachineV {
    pub pool: Seq<Option<ValueV>>,
    pub stack: StackV,
    pub scopes: Seq<ScopeV>,
    pub counter: int,
}

/// An error of the machine, blamed on the instruction `iv`.
pub open spec fn vm_err(iv: InstructionV, t: VMErrorType) -> ErrAt {
    ErrAt { offset: iv.offset, width: iv.width, error_type: ErrorType::VMError(t) }
}

/// Pushing a reference: the stack's own contract, lifted to the machine.
pub open spec fn sem_push(m: MachineV, iv: InstructionV, r: ValueRef) -> (MachineV, Result<
    (),
    ErrAt,
>) {
    if 0 <= m.stack.stacki + 1 < STACK_SIZE {
        (
            MachineV {
                stack: StackV {
                    stacki: m.stack.stacki + 1,
                    slots: m.stack.slots.update(m.stack.stacki + 1, Some(r)),
                },
                ..m
            },
            Ok(()),
        )
    } else {
        (m, Err(range_err(m.stack, iv, 1)))
    }
}

/// Popping a reference: the stack's own contract, lifted to the machine.
pub open spec fn sem_pop(m: MachineV, iv: InstructionV) -> (MachineV, Result<ValueRef, ErrAt>) {
    if !(0 <= m.stack.stacki - 1 < STACK_SIZE) {
        (m, Err(range_err(m.stack, iv, -1)))
    } else {
        let m2 = MachineV { stack: StackV { stacki: m.stack.stacki - 1, ..m.stack }, ..m };
        match m.stack.slots[m.stack.stacki] {
            Some(v) => (m2, Ok(v)),
            None => (m2, Err(vm_err(iv, VMErrorType::StackElementUninitialized))),
        }
    }
}

/// Allocating a value in the pool.
pub open spec fn sem_create(m: MachineV, v: ValueV) -> (MachineV, ValueRef) {
    (MachineV { pool: m.pool.push(Some(v)), ..m }, ValueRef::Pooled(m.pool.len() as usize))
}

/// The binding of `id`, searched from the scope at arena index `scope`
/// up the parent chain; `None` when no scope of the chain binds it.
pub open spec fn sem_lookup(scopes: Seq<ScopeV>, scope: int, id: Seq<char>) -> Option<ValueRef>
    decreases scope,
{
    if scope < 0 || scope >= scopes.len() {
        None
    } else {
        let s = scopes[scope];
        if s.vars.contains_key(id) {
            Some(s.vars[id])
        } else {
            match s.parent {
                Some(p) => if (p as int) < scope {
                    sem_lookup(scopes, p as int, id)
                } else {
                    None
                },
                None => None,
            }
        }
    }
}

/// The value a reference denotes.
pub open spec fn sem_deref(m: MachineV, r: ValueRef) -> ValueV {
    match r {
        ValueRef::Pooled(i) => pool_at(m.pool, i as int),
        ValueRef::NullRef => ValueV::Null,
    }
}

/// Resolution: a `Variable` placeholder becomes the binding found up
/// the chain (or the free-standing `Null` when unbound); anything else
/// resolves to itself.
pub open spec fn sem_resolve(m: MachineV, scope: int, r: ValueRef) -> ValueRef {
    match sem_deref(m, r) {
        ValueV::Variable { identifier } => match sem_lookup(m.scopes, scope, identifier) {
            Some(b) => b,
            None => ValueRef::NullRef,
        },
        _ => r,
    }
}

/// Binding `id` in the scope at arena index `scope`: that scope's own
/// map gains the binding; ancestors are never touched.
pub open spec fn sem_set_var(m: MachineV, scope: int, id: Seq<char>, r: ValueRef) -> MachineV {
    if 0 <= scope < m.scopes.len() {
        MachineV {
            scopes: m.scopes.update(
                scope,
                ScopeV { parent: m.scopes[scope].parent, vars: m.scopes[scope].vars.insert(id, r) },
            ),
            ..m
        }
    } else {
        m
    }
}

/// A pool slot survives a sweep exactly when some stack slot or some
/// scope binding refers to it: this is the collection predicate.
pub open spec fn referenced(m: MachineV, i: int) -> bool {
    stack_refs(m.stack, i) || exists|s: int|
        0 <= s < m.scopes.len() && scope_refs(m.scopes[s], i)
}

/// One sweep: referenced slots keep their value, all others are freed.
pub open spec fn sem_gc(m: MachineV) -> MachineV {
    MachineV {
        pool: Seq::new(
            m.pool.len(),
            |i: int|
                if referenced(m, i) {
                    m.pool[i]
                } else {
                    None
                },
        ),
        ..m
    }
}

/// The per-instruction bookkeeping: the shared counter advances, and
/// once it passes the threshold the pool is swept and it starts over.
pub open spec fn sem_tick(m: MachineV) -> MachineV {
    let m2 = MachineV { counter: m.counter + 1, ..m };
    if m2.counter > GC_INSTRUCTION_COUNT {
        MachineV { counter: 0, ..sem_gc(m2) }
    } else {
        m2
    }
}

/// Truncating integer division (toward zero), as the machine divides.
pub open spec fn tdiv(a: int, b: int) -> int {
    let q = iabs(a) / iabs(b);
    if (a < 0) != (b < 0) {
        -q
    } else {
        q
    }
}

/// Magnitude of an integer.
pub open spec fn iabs(v: int) -> int {
    if v < 0 {
        -v
    } else {
        v
    }
}

/// Two's-complement wrap-around into a 32-bit integer.
pub open spec fn wrap_i32(v: int) -> i32 {
    v as i32
}

/// Numeric coercion and the arithmetic itself. Int with Int stays Int
/// (division truncating toward zero; division by zero is no result);
/// any Float operand promotes the other side to Float; every other
/// pairing, strings included, has no result and the operation is not
/// supported.
pub open spec fn binary_result(code: CodeV, a: ValueV, b: ValueV) -> Option<ValueV> {
    match (a, b) {
        (ValueV::Int(x), ValueV::Int(y)) => match code {
            CodeV::Add => Some(ValueV::Int(wrap_i32(x + y))),
            CodeV::Subtract => Some(ValueV::Int(wrap_i32(x - y))),
            CodeV::Multiply => Some(ValueV::Int(wrap_i32(x * y))),
            CodeV::Divide => if y == 0 {
                None
            } else {
                Some(ValueV::Int(wrap_i32(tdiv(x as int, y as int))))
            },
            _ => None,
        },
        (ValueV::Float(x), ValueV::Float(y)) => float_op(code, x, y),
        (ValueV::Int(x), ValueV::Float(y)) => float_op(code, float_of_int(x), y),
        (ValueV::Float(x), ValueV::Int(y)) => float_op(code, x, float_of_int(y)),
        _ => None,
    }
}

/// The Float result of one arithmetic opcode on two bit patterns.
pub open spec fn float_op(code: CodeV, x: u64, y: u64) -> Option<ValueV> {
    match code {
        CodeV::Add => Some(ValueV::Float(float_add(x, y))),
        CodeV::Subtract => Some(ValueV::Float(float_sub(x, y))),
        CodeV::Multiply => Some(ValueV::Float(float_mul(x, y))),
        CodeV::Divide => Some(ValueV::Float(float_div(x, y))),
        _ => None,
    }
}

/// A push-literal instruction: allocate the value, push the reference.
pub open spec fn sem_push_literal(m: MachineV, iv: InstructionV, v: ValueV) -> (MachineV, Result<
    (),
    ErrAt,
>) {
    let (m1, r) = sem_create(m, v);
    sem_push(m1, iv, r)
}

/// An arithmetic instruction: pop two operands (second on top), resolve
/// both through the scope chain, combine, and push a newly pooled
/// result.
pub open spec fn sem_compute(m: MachineV, scope: usize, iv: InstructionV) -> (MachineV, Result<
    (),
    ErrAt,
>) {
    let (m1, r1) = sem_pop(m, iv);
    match r1 {
        Err(e) => (m1, Err(e)),
        Ok(second_ref) => {
            let (m2, r2) = sem_pop(m1, iv);
            match r2 {
                Err(e) => (m2, Err(e)),
                Ok(first_ref) => {
                    let a = sem_deref(m2, sem_resolve(m2, scope as int, first_ref));
                    let b = sem_deref(m2, sem_resolve(m2, scope as int, second_ref));
                    match binary_result(iv.code, a, b) {
                        Some(v) => {
                            let (m3, r) = sem_create(m2, v);
                            sem_push(m3, iv, r)
                        },
                        None => (m2, Err(vm_err(iv, VMErrorType::OperationNotSupported))),
                    }
                },
            }
        },
    }
}

/// An assignment: pop the value, then the target, which must still be
/// an unresolved `Variable` placeholder; bind the resolved value in the
/// current scope and push the placeholder back as the result.
pub open spec fn sem_assign(m: MachineV, scope: usize, iv: InstructionV) -> (MachineV, Result<
    (),
    ErrAt,
>) {
    let (m1, r1) = sem_pop(m, iv);
    match r1 {
        Err(e) => (m1, Err(e)),
        Ok(second_ref) => {
            let (m2, r2) = sem_pop(m1, iv);
            match r2 {
                Err(e) => (m2, Err(e)),
                Ok(first_ref) => {
                    match sem_deref(m2, first_ref) {
                        ValueV::Variable { identifier } => {
                            let resolved = sem_resolve(m2, scope as int, second_ref);
                            let m3 = sem_set_var(m2, scope as int, identifier, resolved);
                            sem_push(m3, iv, first_ref)
                        },
                        _ => (m2, Err(vm_err(iv, VMErrorType::AssignToNonVariable))),
                    }
                },
            }
        },
    }
}

/// Popping and resolving `n` call arguments off the stack, first popped
/// first.
pub open spec fn sem_pop_args(m: MachineV, cs: usize, n: nat, iv: InstructionV) -> (MachineV,
Result<Seq<ValueRef>, ErrAt>)
    decreases n,
{
    if n == 0 {
        (m, Ok(Seq::empty()))
    } else {
        let (m1, r1) = sem_pop(m, iv);
        match r1 {
            Err(e) => (m1, Err(e)),
            Ok(vr) => {
                let resolved = sem_resolve(m1, cs as int, vr);
                let (m2, r2) = sem_pop_args(m1, cs, (n - 1) as nat, iv);
                match r2 {
                    Err(e) => (m2, Err(e)),
                    Ok(rest) => (m2, Ok(seq![resolved] + rest)),
                }
            },
        }
    }
}

/// Binding parameters to arguments in the child scope. The arguments
/// were popped in reverse stack order, so parameter `i` takes the
/// argument popped last but `i`.
pub open spec fn sem_bind_pars(
    m: MachineV,
    cs: usize,
    pars: Seq<Seq<char>>,
    args: Seq<ValueRef>,
    i: nat,
) -> MachineV
    decreases pars.len() - i,
{
    if i >= pars.len() {
        m
    } else {
        let m2 = sem_set_var(m, cs as int, pars[i as int], args[pars.len() - 1 - i]);
        sem_bind_pars(m2, cs, pars, args, i + 1)
    }
}

/// Dropping the scopes an activation created.
pub open spec fn sem_drop_scopes(m: MachineV, cs: usize) -> MachineV {
    MachineV { scopes: m.scopes.take(cs as int), ..m }
}

/// What one instruction does to the machine.
pub enum StepV {
    /// The machine advanced; execution continues at the given index.
    Next(MachineV, int),
    /// A `Return` closed the innermost block.
    Stop(MachineV),
    /// The instruction failed; the mutations so far remain.
    Fail(MachineV, ErrAt),
}

/// Wraps an instruction-local outcome into a step, advancing past the
/// instruction on success.
pub open spec fn sem_step_from(o: (MachineV, Result<(), ErrAt>), at: int) -> StepV {
    match o.1 {
        Ok(()) => StepV::Next(o.0, at + 1),
        Err(e) => StepV::Fail(o.0, e),
    }
}

/// Executes instructions from `from` until a `Return`, an error, or the
/// end of the program.
pub open spec fn sem_exec(
    p: Seq<InstructionV>,
    m: MachineV,
    scope: usize,
    from: int,
    depth: nat,
) -> (MachineV, Result<(), ErrAt>)
    decreases depth, (if from <= p.len() { p.len() - from } else { 0 }), 2int, 0int,
{
    if from < 0 || from >= p.len() {
        (m, Ok(()))
    } else {
        match sem_instr(p, m, scope, from, depth) {
            StepV::Stop(m2) => (m2, Ok(())),
            StepV::Fail(m2, e) => (m2, Err(e)),
            StepV::Next(m2, next) => {
                let nx = if next < from + 1 {
                    from + 1
                } else if next > p.len() {
                    p.len() as int
                } else {
                    next
                };
                sem_exec(p, sem_tick(m2), scope, nx, depth)
            },
        }
    }
}

/// What the instruction at `at` does.
pub open spec fn sem_instr(
    p: Seq<InstructionV>,
    m: MachineV,
    scope: usize,
    at: int,
    depth: nat,
) -> StepV
    decreases depth, (if at <= p.len() { p.len() - at } else { 0 }), 1int, 0int,
{
    let iv = p[at];
    match iv.code {
        CodeV::PushNum(i) => sem_step_from(sem_push_literal(m, iv, ValueV::Int(i)), at),
        CodeV::PushFloat(b) => sem_step_from(sem_push_literal(m, iv, ValueV::Float(b)), at),
        CodeV::PushString(s) => sem_step_from(sem_push_literal(m, iv, ValueV::String(s)), at),
        CodeV::PushNull => sem_step_from(sem_push_literal(m, iv, ValueV::Null), at),
        CodeV::PushVar(id) => sem_step_from(
            sem_push_literal(m, iv, ValueV::Variable { identifier: id }),
            at,
        ),
        CodeV::Add | CodeV::Subtract | CodeV::Multiply | CodeV::Divide => sem_step_from(
            sem_compute(m, scope, iv),
            at,
        ),
        CodeV::Assign => sem_step_from(sem_assign(m, scope, iv), at),
        CodeV::PushFunction { pars, body_len } => {
            let (m1, r) = sem_create(m, ValueV::Function { position: at as usize });
            match sem_push(m1, iv, r) {
                (m2, Ok(())) => StepV::Next(m2, at + 1 + body_len),
                (m2, Err(e)) => StepV::Fail(m2, e),
            }
        },
        CodeV::CallFunction { args_len } => sem_call(p, m, scope, at, args_len, depth),
        CodeV::Pop => {
            match sem_pop(m, iv) {
                (m1, Ok(_)) => StepV::Next(m1, at + 1),
                (m1, Err(e)) => StepV::Fail(m1, e),
            }
        },
        CodeV::Return => StepV::Stop(m),
        _ => StepV::Fail(m, vm_err(iv, VMErrorType::NotImplemented)),
    }
}

/// A call: run the trailing argument block in a fresh child scope, pop
/// the argument count and the arguments, pop and resolve the callee,
/// check its shape and arity, bind parameters, run the inlined body,
/// propagate its result, and continue past the argument block. The
/// child scope dies with the activation, on every exit.
pub open spec fn sem_call(
    p: Seq<InstructionV>,
    m: MachineV,
    scope: usize,
    at: int,
    args_len: usize,
    depth: nat,
) -> StepV
    decreases depth, (if at <= p.len() { p.len() - at } else { 0 }), 0int, 3int,
{
    let iv = p[at];
    if depth == 0 {
        StepV::Fail(
            m,
            vm_err(
                iv,
                VMErrorType::StackOverflow { stack_size: CALL_DEPTH, index: CALL_DEPTH as i32 },
            ),
        )
    } else {
        let cs = m.scopes.len() as usize;
        let m1 = MachineV {
            scopes: m.scopes.push(ScopeV { parent: Some(scope), vars: Map::empty() }),
            ..m
        };
        let (mr, res) = sem_call_inner(p, m1, scope, cs, at, depth);
        let md = sem_drop_scopes(mr, cs);
        match res {
            Ok(()) => StepV::Next(md, at + 1 + args_len),
            Err(e) => StepV::Fail(md, e),
        }
    }
}

/// The activation itself, from the argument block to the propagated
/// result; the caller drops the child scope afterwards.
pub open spec fn sem_call_inner(
    p: Seq<InstructionV>,
    m: MachineV,
    scope: usize,
    cs: usize,
    at: int,
    depth: nat,
) -> (MachineV, Result<(), ErrAt>)
    decreases depth, (if at <= p.len() { p.len() - at } else { 0 }), 0int, 2int,
{
    if depth == 0 {
        // never reached: `sem_call` hands in a positive budget; this
        // arm only keeps the recursion well-founded
        (m, Err(vm_err(p[at], VMErrorType::NotImplemented)))
    } else {
        let (m2, r2) = sem_exec(p, m, cs, at + 1, (depth - 1) as nat);
        match r2 {
            Err(e) => (m2, Err(e)),
            Ok(()) => sem_call_with_args(p, m2, scope, cs, at, depth),
        }
    }
}

/// The rest of a call, once the argument block has run.
pub open spec fn sem_call_with_args(
    p: Seq<InstructionV>,
    m: MachineV,
    scope: usize,
    cs: usize,
    at: int,
    depth: nat,
) -> (MachineV, Result<(), ErrAt>)
    decreases depth, (if at <= p.len() { p.len() - at } else { 0 }), 0int, 1int,
{
    let iv = p[at];
    let (m3, r3) = sem_pop(m, iv);
    match r3 {
        Err(e) => (m3, Err(e)),
        Ok(cnt_ref) => match sem_deref(m3, cnt_ref) {
            ValueV::Int(i) => {
                let count = i as usize;
                let (m4, r4) = sem_pop_args(m3, cs, count as nat, iv);
                match r4 {
                    Err(e) => (m4, Err(e)),
                    Ok(args) => {
                        let (m5, r5) = sem_pop(m4, iv);
                        match r5 {
                            Err(e) => (m5, Err(e)),
                            Ok(func_ref) => {
                                match sem_deref(m5, sem_resolve(m5, scope as int, func_ref)) {
                                    ValueV::Function { position } => sem_call_function(
                                        p,
                                        m5,
                                        cs,
                                        at,
                                        position,
                                        args,
                                        depth,
                                    ),
                                    _ => (m5, Err(vm_err(iv, VMErrorType::InvalidCast))),
                                }
                            },
                        }
                    },
                }
            },
            _ => (m3, Err(vm_err(iv, VMErrorType::InvalidArgumentCountType))),
        },
    }
}

/// The body of a call: the callee must name a `PushFunction`
/// instruction with as many parameters as there are arguments; the body
/// that follows it runs in the child scope, and its result (if the
/// block left one) is resolved and pushed for the caller.
pub open spec fn sem_call_function(
    p: Seq<InstructionV>,
    m: MachineV,
    cs: usize,
    at: int,
    position: usize,
    args: Seq<ValueRef>,
    depth: nat,
) -> (MachineV, Result<(), ErrAt>)
    decreases depth, (if at <= p.len() { p.len() - at } else { 0 }), 0int, 0int,
{
    let iv = p[at];
    if depth == 0 {
        // never reached: the call handed in a positive budget; this
        // arm only keeps the recursion well-founded
        (m, Err(vm_err(iv, VMErrorType::NotImplemented)))
    } else if !(position < p.len()) {
        (m, Err(vm_err(iv, VMErrorType::InvalidFunctionValue)))
    } else {
        match p[position as int].code {
            CodeV::PushFunction { pars, body_len } => {
                if pars.len() != args.len() {
                    (m, Err(vm_err(iv, VMErrorType::MismatchedArgumentCount)))
                } else {
                    let m6 = sem_bind_pars(m, cs, pars, args, 0);
                    let (m7, r7) = sem_exec(p, m6, cs, position + 1, (depth - 1) as nat);
                    match r7 {
                        Err(e) => (m7, Err(e)),
                        Ok(()) => {
                            let (m8, r8) = sem_pop(m7, iv);
                            match r8 {
                                Ok(vr) => {
                                    let rv = sem_resolve(m8, cs as int, vr);
                                    sem_push(m8, iv, rv)
                                },
                                Err(_) => (m8, Ok(())),
                            }
                        },
                    }
                }
            },
            _ => (m, Err(vm_err(iv, VMErrorType::InvalidFunctionValue))),
        }
    }
}

/// The machine a fresh virtual machine starts with: empty pool, empty
/// stack at full capacity, one rootless scope, counter at zero.
pub open spec fn init_machine() -> MachineV {
    MachineV {
        pool: Seq::empty(),
        stack: StackV { stacki: 0, slots: Seq::new(STACK_SIZE as nat, |i: int| None) },
        scopes: seq![ScopeV { parent: None, vars: Map::empty() }],
        counter: 0,
    }
}

/// The instruction a result pop is blamed on: a synthetic `Null` at the
/// origin.
pub open spec fn null_instr() -> InstructionV {
    InstructionV { offset: 0, width: 0, code: CodeV::Null }
}

/// A whole top-level run: execute from `from`, then pop the result (an
/// empty stack reads as `Null`), resolve it, and render it.
pub open spec fn sem_run(p: Seq<InstructionV>, m: MachineV, scope: usize, from: int) -> (MachineV,
Result<Seq<char>, ErrAt>) {
    let (m2, r) = sem_exec(p, m, scope, from, CALL_DEPTH as nat);
    match r {
        Err(e) => (m2, Err(e)),
        Ok(()) => {
            let (m3, pr) = sem_pop(m2, null_instr());
            match pr {
                Ok(vr) => (
                    m3,
                    Ok(render_view(sem_deref(m3, sem_resolve(m3, scope as int, vr)))),
                ),
                Err(_) => (m3, Ok(render_view(ValueV::Null))),
            }
        },
    }
}


/// The execution engine: it owns the pool, the operand stack, and the
/// scope arena, and interprets programs against them. State persists
/// across successive runs, so a caller can append code and resume.
#[derive(Debug)]
pub struct VMInstance {
    pool: Pool,
    stack: Stack,
    scopes: Vec<Scope>,
    scope: usize,
    instruction_count: usize,
}

impl VMInstance {
    /// The machine this engine currently is.
    pub closed spec fn machine(&self) -> MachineV {
        MachineV {
            pool: self.pool@,
            stack: self.stack@,
            scopes: self.scopes@.map_values(|s: Scope| s@),
            counter: self.instruction_count as int,
        }
    }

    /// The arena index of this engine's own scope.
    pub closed spec fn scope_idx(&self) -> usize {
        self.scope
    }

    /// Structural soundness of the engine's storage.
    pub closed spec fn wf_core(&self) -> bool {
        &&& self.stack.wf()
        &&& self.scope < self.scopes@.len()
        &&& forall|i: int| 0 <= i < self.scopes@.len() ==> self.scopes@[i].wf()
    }

    /// Structural soundness of the engine, counter included.
    pub closed spec fn wf(&self) -> bool {
        self.wf_core() && self.instruction_count <= GC_INSTRUCTION_COUNT
    }

    /// A fresh engine: empty pool, empty stack, one root scope.
    pub fn new() -> (r: Self)
        ensures
            r.wf(),
            r.machine() == init_machine(),
            r.scope_idx() == 0,
    {
        let mut scopes: Vec<Scope> = Vec::new();
        scopes.push(Scope::initial());
        let r = VMInstance {
            pool: Pool::new(),
            stack: Stack::new(),
            scopes,
            scope: 0,
            instruction_count: 0,
        };
        proof {
            assert(r.machine() =~~= init_machine());
        }
        r
    }

    fn push(&mut self, instruction: &Instruction, val: ValueRef) -> (r: Result<(), Error>)
        requires
            old(self).wf(),
        ensures
            final(self).wf(),
            final(self).scope_idx() == old(self).scope_idx(),
            ({
                let (m2, res) = sem_push(old(self).machine(), instruction@, val);
                &&& final(self).machine() == m2
                &&& match r {
                    Ok(()) => res is Ok,
                    Err(e) => res matches Err(x) && err_at(e) == x,
                }
            }),
    {
        let ghost m0 = self.machine();
        let r = self.stack.push(instruction, val);
        proof {
            assert(self.machine() =~~= sem_push(m0, instruction@, val).0);
        }
        r
    }

    fn pop(&mut self, instruction: &Instruction) -> (r: Result<ValueRef, Error>)
        requires
            old(self).wf(),
        ensures
            final(self).wf(),
            final(self).scope_idx() == old(self).scope_idx(),
            ({
                let (m2, res) = sem_pop(old(self).machine(), instruction@);
                &&& final(self).machine() == m2
                &&& match r {
                    Ok(v) => res matches Ok(w) && v == w,
                    Err(e) => res matches Err(x) && err_at(e) == x,
                }
            }),
    {
        let ghost m0 = self.machine();
        let r = self.stack.pop(instruction);
        proof {
            assert(self.machine() =~~= sem_pop(m0, instruction@).0);
        }
        r
    }

    fn create(&mut self, val: Value) -> (r: ValueRef)
        requires
            old(self).wf(),
        ensures
            final(self).wf(),
            final(self).scope_idx() == old(self).scope_idx(),
            final(self).machine() == sem_create(old(self).machine(), val@).0,
            r == sem_create(old(self).machine(), val@).1,
    {
        let ghost m0 = self.machine();
        let i = self.pool.create(val);
        proof {
            assert(self.machine() =~~= sem_create(m0, val@).0);
        }
        ValueRef::Pooled(i)
    }

    /// The value a reference denotes, copied out of the pool.
    fn deref_ref(&self, r: ValueRef) -> (v: Value)
        ensures
            v@ == sem_deref(self.machine(), r),
    {
        match r {
            ValueRef::Pooled(i) => self.pool.get(i),
            ValueRef::NullRef => Value::Null,
        }
    }

    /// The binding of `identifier`, searched up the parent chain from
    /// the scope at arena index `scope`.
    fn lookup(&self, scope: usize, identifier: &String) -> (r: Option<ValueRef>)
        ensures
            r == sem_lookup(self.machine().scopes, scope as int, identifier@),
        decreases scope,
    {
        proof {
            assert(self.machine().scopes.len() == self.scopes@.len());
        }
        if scope >= self.scopes.len() {
            return None;
        }
        proof {
            assert(self.machine().scopes[scope as int] == self.scopes@[scope as int]@);
        }
        match self.scopes[scope].get_variable(identifier) {
            Some(v) => Some(v),
            None => {
                let parent = self.scopes[scope].parent_index();
                match parent {
                    Some(p) => {
                        if p < scope {
                            self.lookup(p, identifier)
                        } else {
                            None
                        }
                    },
                    None => None,
                }
            },
        }
    }

    /// Resolution of a reference against the scope chain rooted at
    /// arena index `scope`: a `Variable` placeholder becomes its
    /// binding (or the free-standing `Null`), anything else stays
    /// itself.
    fn get_variable(&self, scope: usize, val: ValueRef) -> (r: ValueRef)
        ensures
            r == sem_resolve(self.machine(), scope as int, val),
    {
        let v = self.deref_ref(val);
        match v {
            Value::Variable { identifier } => match self.lookup(scope, &identifier) {
                Some(b) => b,
                None => ValueRef::NullRef,
            },
            _ => val,
        }
    }

    /// Binds `identifier` in the scope at arena index `scope`.
    fn set_variable(&mut self, scope: usize, identifier: String, val: ValueRef)
        requires
            old(self).wf(),
            scope < old(self).machine().scopes.len(),
        ensures
            final(self).wf(),
            final(self).scope_idx() == old(self).scope_idx(),
            final(self).machine() == sem_set_var(
                old(self).machine(),
                scope as int,
                identifier@,
                val,
            ),
    {
        let ghost m0 = self.machine();
        let ghost idv = identifier@;
        let mut sc = self.scopes.remove(scope);
        sc.set_variable(identifier, val);
        self.scopes.insert(scope, sc);
        proof {
            let updated = self.scopes@[scope as int];
            assert(self.scopes@ =~= old(self).scopes@.update(scope as int, updated));
            assert(self.machine() =~~= sem_set_var(m0, scope as int, idv, val));
        }
    }

    /// Allocates a value and pushes the fresh reference.
    fn push_new(&mut self, instruction: &Instruction, val: Value) -> (r: Result<(), Error>)
        requires
            old(self).wf(),
        ensures
            final(self).wf(),
            final(self).scope_idx() == old(self).scope_idx(),
            ({
                let (m2, res) = sem_push_literal(old(self).machine(), instruction@, val@);
                &&& final(self).machine() == m2
                &&& match r {
                    Ok(()) => res is Ok,
                    Err(e) => res matches Err(x) && err_at(e) == x,
                }
            }),
    {
        let vr = self.create(val);
        self.push(instruction, vr)
    }
}


/// Truncating 32-bit division with two's-complement wrap-around (the
/// one wrapping case is the most negative value divided by minus one).
fn div_trunc(a: i32, b: i32) -> (r: i32)
    requires
        b != 0,
    ensures
        r == wrap_i32(tdiv(a as int, b as int)),
{
    let ua: u64 = if a < 0 {
        (-(a as i64)) as u64
    } else {
        a as u64
    };
    let ub: u64 = if b < 0 {
        (-(b as i64)) as u64
    } else {
        b as u64
    };
    let q: u64 = ua / ub;
    proof {
        assert(ua == iabs(a as int));
        assert(ub == iabs(b as int));
        assert(q == iabs(a as int) / iabs(b as int));
        assert(q <= ua);
    }
    let neg = (a < 0) != (b < 0);
    let qi: i64 = if neg {
        -(q as i64)
    } else {
        q as i64
    };
    proof {
        assert(qi == tdiv(a as int, b as int));
    }
    #[verifier::truncate] (qi as i32)
}

impl VMInstance {
    /// The machine error the given instruction is blamed for when its
    /// operand kinds admit no operation.
    fn operation_not_supported(instruction: &Instruction) -> (r: Error)
        ensures
            err_at(r) == vm_err(instruction@, VMErrorType::OperationNotSupported),
    {
        Error::new(
            instruction.offset,
            instruction.width,
            ErrorType::VMError(VMErrorType::OperationNotSupported),
        ).with_description(String::from_str("operation not supported for these operand kinds"))
    }

    /// Computes one Float operation and pushes the newly pooled result.
    fn float_binary(&mut self, instruction: &Instruction, x: u64, y: u64) -> (r: Result<
        (),
        Error,
    >)
        requires
            old(self).wf(),
        ensures
            final(self).wf(),
            final(self).scope_idx() == old(self).scope_idx(),
            match float_op(instruction@.code, x, y) {
                Some(v) => ({
                    let (m2, res) = sem_push_literal(old(self).machine(), instruction@, v);
                    &&& final(self).machine() == m2
                    &&& match r {
                        Ok(()) => res is Ok,
                        Err(e) => res matches Err(z) && err_at(e) == z,
                    }
                }),
                None => final(self).machine() == old(self).machine() && (r matches Err(e)
                    && err_at(e) == vm_err(instruction@, VMErrorType::OperationNotSupported)),
            },
    {
        match &instruction.code {
            Code::Add => {
                let bits = crate::float::add_bits(x, y);
                self.push_new(instruction, Value::Float(bits))
            },
            Code::Subtract => {
                let bits = crate::float::sub_bits(x, y);
                self.push_new(instruction, Value::Float(bits))
            },
            Code::Multiply => {
                let bits = crate::float::mul_bits(x, y);
                self.push_new(instruction, Value::Float(bits))
            },
            Code::Divide => {
                let bits = crate::float::div_bits(x, y);
                self.push_new(instruction, Value::Float(bits))
            },
            _ => Err(Self::operation_not_supported(instruction)),
        }
    }

    /// Pops two operands (the right one on top), resolves both through
    /// the chain rooted at `scope`, combines them by the instruction's
    /// opcode under the numeric coercion rules, and pushes the newly
    /// pooled result.
    fn compute_two_operands(&mut self, scope: usize, instruction: &Instruction) -> (r: Result<
        (),
        Error,
    >)
        requires
            old(self).wf(),
        ensures
            final(self).wf(),
            final(self).scope_idx() == old(self).scope_idx(),
            ({
                let (m2, res) = sem_compute(old(self).machine(), scope, instruction@);
                &&& final(self).machine() == m2
                &&& match r {
                    Ok(()) => res is Ok,
                    Err(e) => res matches Err(x) && err_at(e) == x,
                }
            }),
    {
        let pop_second = match self.pop(instruction) {
            Ok(v) => v,
            Err(e) => {
                return Err(e);
            },
        };
        let pop_first = match self.pop(instruction) {
            Ok(v) => v,
            Err(e) => {
                return Err(e);
            },
        };

        let first_ref = self.get_variable(scope, pop_first);
        let second_ref = self.get_variable(scope, pop_second);
        let a = self.deref_ref(first_ref);
        let b = self.deref_ref(second_ref);

        match (&a, &b) {
            (Value::Int(x), Value::Int(y)) => {
                proof {
                    let xi = *x as int;
                    let yi = *y as int;
                    assert(-0x4000000000000000 <= xi * yi <= 0x4000000000000000)
                        by (nonlinear_arith)
                        requires
                            -0x80000000 <= xi <= 0x7fffffff,
                            -0x80000000 <= yi <= 0x7fffffff,
                    ;
                }
                let res: i32 = match &instruction.code {
                    Code::Add => #[verifier::truncate] (((*x as i64) + (*y as i64)) as i32),
                    Code::Subtract => #[verifier::truncate] (((*x as i64) - (*y as i64)) as i32),
                    Code::Multiply => #[verifier::truncate] (((*x as i64) * (*y as i64)) as i32),
                    Code::Divide => {
                        if *y == 0 {
                            return Err(Self::operation_not_supported(instruction));
                        }
                        div_trunc(*x, *y)
                    },
                    _ => {
                        return Err(Self::operation_not_supported(instruction));
                    },
                };
                self.push_new(instruction, Value::Int(res))
            },
            (Value::Float(x), Value::Float(y)) => self.float_binary(instruction, *x, *y),
            (Value::Int(x), Value::Float(y)) => {
                let xb = crate::float::int_to_bits(*x);
                self.float_binary(instruction, xb, *y)
            },
            (Value::Float(x), Value::Int(y)) => {
                let yb = crate::float::int_to_bits(*y);
                self.float_binary(instruction, *x, yb)
            },
            _ => Err(Self::operation_not_supported(instruction)),
        }
    }

    /// Pops the value and then the assignment target, which must still
    /// be an unresolved `Variable` placeholder; binds the resolved
    /// value in the scope at arena index `scope` and pushes the
    /// placeholder back as the expression's result.
    fn assign(&mut self, scope: usize, instruction: &Instruction) -> (r: Result<(), Error>)
        requires
            old(self).wf(),
            scope < old(self).machine().scopes.len(),
        ensures
            final(self).wf(),
            final(self).scope_idx() == old(self).scope_idx(),
            ({
                let (m2, res) = sem_assign(old(self).machine(), scope, instruction@);
                &&& final(self).machine() == m2
                &&& match r {
                    Ok(()) => res is Ok,
                    Err(e) => res matches Err(x) && err_at(e) == x,
                }
            }),
    {
        let stack_second = match self.pop(instruction) {
            Ok(v) => v,
            Err(e) => {
                return Err(e);
            },
        };
        let stack_first = match self.pop(instruction) {
            Ok(v) => v,
            Err(e) => {
                return Err(e);
            },
        };

        let target = self.deref_ref(stack_first);
        let identifier = match target {
            Value::Variable { identifier } => identifier,
            _ => {
                return Err(
                    Error::new(
                        instruction.offset,
                        instruction.width,
                        ErrorType::VMError(VMErrorType::AssignToNonVariable),
                    ).with_description(String::from_str("cannot assign to this value")),
                );
            },
        };

        let second = self.get_variable(scope, stack_second);
        self.set_variable(scope, identifier, second);
        self.push(instruction, stack_first)
    }

    /// Sweeps the pool: every value still referenced from a stack slot
    /// or a scope binding remains, everything else is freed.
    pub fn garbage(&mut self)
        requires
            old(self).wf_core(),
        ensures
            final(self).wf_core(),
            final(self).scope_idx() == old(self).scope_idx(),
            final(self).machine() == sem_gc(old(self).machine()),
    {
        let ghost m0 = self.machine();
        let n = self.pool.len();
        let mut keep: Vec<bool> = Vec::new();
        let mut i: usize = 0;
        while i < n
            invariant
                i <= n,
                keep@.len() == i,
                forall|j: int| 0 <= j < i ==> !keep@[j],
            decreases n - i,
        {
            keep.push(false);
            i = i + 1;
        }

        self.stack.mark_refs(&mut keep);
        proof {
            assert(forall|j: int|
                0 <= j < n ==> keep@[j] == stack_refs(m0.stack, j));
        }

        let ghost scs = m0.scopes;
        let mut s: usize = 0;
        while s < self.scopes.len()
            invariant
                s <= self.scopes.len(),
                keep@.len() == n,
                self.machine() == m0,
                self.scope == old(self).scope,
                old(self).wf_core(),
                self.wf_core(),
                n == m0.pool.len(),
                scs == m0.scopes,
                forall|j: int|
                    0 <= j < n ==> keep@[j] == (stack_refs(m0.stack, j) || exists|t: int|
                        0 <= t < s && scope_refs(scs[t], j)),
            decreases self.scopes.len() - s,
        {
            let ghost prev = keep@;
            self.scopes[s].mark_refs(&mut keep);
            proof {
                assert(self.machine().scopes[s as int] == self.scopes@[s as int]@);
                assert(scs[s as int] == self.scopes@[s as int]@);
                assert(keep@.len() == prev.len());
                assert forall|j: int| 0 <= j < n implies keep@[j] == (prev[j] || scope_refs(
                    self.scopes@[s as int]@,
                    j,
                )) by {
                    assert(keep@[j] == (prev[j] || scope_refs(self.scopes@[s as int]@, j)));
                }
                assert forall|j: int| 0 <= j < n implies keep@[j] == (stack_refs(m0.stack, j) || (
                exists|t: int| 0 <= t <= s && scope_refs(scs[t], j))) by {
                    assert(keep@[j] == (prev[j] || scope_refs(scs[s as int], j)));
                    if scope_refs(scs[s as int], j) {
                        assert(0 <= s as int <= s && scope_refs(scs[s as int], j));
                    } else {
                        if exists|t: int| 0 <= t <= s && scope_refs(scs[t], j) {
                            let t = choose|t: int| 0 <= t <= s && scope_refs(scs[t], j);
                            assert(t < s);
                        }
                    }
                }
            }
            s = s + 1;
        }
        proof {
            assert(forall|j: int| 0 <= j < n ==> keep@[j] == referenced(m0, j));
        }

        self.pool.garbage(&keep);
        proof {
            assert(self.machine() =~~= sem_gc(m0));
        }
    }

    /// Advances the shared instruction counter; past the threshold, the
    /// pool is swept and the counter starts over.
    fn tick(&mut self)
        requires
            old(self).wf(),
        ensures
            final(self).wf(),
            final(self).scope_idx() == old(self).scope_idx(),
            final(self).machine() == sem_tick(old(self).machine()),
    {
        let ghost m0 = self.machine();
        self.instruction_count = self.instruction_count + 1;
        let ghost m1 = self.machine();
        if self.instruction_count > GC_INSTRUCTION_COUNT {
            self.garbage();
            self.instruction_count = 0;
            proof {
                assert(self.machine() =~~= sem_tick(m0));
            }
        } else {
            proof {
                assert(self.machine() =~~= sem_tick(m0));
            }
        }
    }
}


impl VMInstance {
    /// Interprets `program` from `from` in the scope at arena index
    /// `scope`, with `depth` levels of call nesting still allowed.
    #[verifier::loop_isolation(false)]
    #[verifier::rlimit(100)]
    fn exec_at(&mut self, program: &Program, from: usize, scope: usize, depth: usize) -> (r:
        Result<(), Error>)
        requires
            old(self).wf(),
            scope < old(self).machine().scopes.len(),
        ensures
            final(self).wf(),
            final(self).scope_idx() == old(self).scope_idx(),
            final(self).machine().scopes.len() == old(self).machine().scopes.len(),
            ({
                let (m2, res) = sem_exec(
                    program_view(program@),
                    old(self).machine(),
                    scope,
                    from as int,
                    depth as nat,
                );
                &&& final(self).machine() == m2
                &&& match r {
                    Ok(()) => res is Ok,
                    Err(e) => res matches Err(x) && err_at(e) == x,
                }
            }),
        decreases depth, 1int,
    {
        let ghost pv = program_view(program@);
        let ghost m0 = old(self).machine();
        let mut index: usize = from;

        while index < program.len()
            invariant
                self.wf(),
                self.scope_idx() == old(self).scope_idx(),
                self.machine().scopes.len() == m0.scopes.len(),
                scope < self.machine().scopes.len(),
                sem_exec(pv, m0, scope, from as int, depth as nat) == sem_exec(
                    pv,
                    self.machine(),
                    scope,
                    index as int,
                    depth as nat,
                ),
            decreases program.len() - index,
        {
            let instruction = &program[index];
            let ghost iv = pv[index as int];
            let ghost m_b = self.machine();
            proof {
                assert(iv == instruction@);
            }
            let mut jump: usize = 0;
            match &instruction.code {
                Code::PushNum(i) => {
                    match self.push_new(instruction, Value::Int(*i)) {
                        Ok(()) => {},
                        Err(e) => {
                            return Err(e);
                        },
                    }
                },
                Code::PushFloat(f) => {
                    match self.push_new(instruction, Value::Float(*f)) {
                        Ok(()) => {},
                        Err(e) => {
                            return Err(e);
                        },
                    }
                },
                Code::PushString(text) => {
                    match self.push_new(instruction, Value::String(text.clone())) {
                        Ok(()) => {},
                        Err(e) => {
                            return Err(e);
                        },
                    }
                },
                Code::PushNull => {
                    match self.push_new(instruction, Value::Null) {
                        Ok(()) => {},
                        Err(e) => {
                            return Err(e);
                        },
                    }
                },
                Code::PushVar(identifier) => {
                    match self.push_new(
                        instruction,
                        Value::Variable { identifier: identifier.clone() },
                    ) {
                        Ok(()) => {},
                        Err(e) => {
                            return Err(e);
                        },
                    }
                },
                Code::Add | Code::Subtract | Code::Multiply | Code::Divide => {
                    match self.compute_two_operands(scope, instruction) {
                        Ok(()) => {},
                        Err(e) => {
                            return Err(e);
                        },
                    }
                },
                Code::Assign => {
                    match self.assign(scope, instruction) {
                        Ok(()) => {},
                        Err(e) => {
                            return Err(e);
                        },
                    }
                },
                Code::PushFunction { pars: _, body_len } => {
                    let vr = self.create(Value::Function { position: index });
                    match self.push(instruction, vr) {
                        Ok(()) => {},
                        Err(e) => {
                            return Err(e);
                        },
                    }
                    jump = *body_len;
                },
                Code::CallFunction { args_len } => {
                    if depth == 0 {
                        let e = Error::new(
                            instruction.offset,
                            instruction.width,
                            ErrorType::VMError(
                                VMErrorType::StackOverflow {
                                    stack_size: CALL_DEPTH,
                                    index: CALL_DEPTH as i32,
                                },
                            ),
                        ).with_description(
                            String::from_str("call nesting exceeds the call depth limit"),
                        );
                        return Err(e);
                    }
                    let cs = self.scopes.len();
                    self.scopes.push(Scope::new(scope));
                    proof {
                        assert(self.machine().scopes =~= m_b.scopes.push(
                            ScopeV { parent: Some(scope), vars: Map::empty() },
                        ));
                        assert(self.machine() =~~= (MachineV {
                            scopes: m_b.scopes.push(
                                ScopeV { parent: Some(scope), vars: Map::empty() },
                            ),
                            ..m_b
                        }));
                    }
                    let rr = self.do_call(program, instruction, index, scope, cs, depth);
                    let ghost m_r = self.machine();
                    self.scopes.truncate(cs);
                    proof {
                        assert(self.machine().scopes =~= m_r.scopes.take(cs as int));
                        assert(self.machine() =~~= sem_drop_scopes(m_r, cs));
                    }
                    match rr {
                        Ok(()) => {
                            jump = *args_len;
                        },
                        Err(e) => {
                            return Err(e);
                        },
                    }
                },
                Code::Pop => {
                    match self.pop(instruction) {
                        Ok(_) => {},
                        Err(e) => {
                            return Err(e);
                        },
                    }
                },
                Code::Return => {
                    proof {
                        assert(sem_instr(pv, m_b, scope, index as int, depth as nat)
                            == StepV::Stop(m_b));
                    }
                    return Ok(());
                },
                Code::Null | Code::PushList(_) => {
                    let e = Error::new(
                        instruction.offset,
                        instruction.width,
                        ErrorType::VMError(VMErrorType::NotImplemented),
                    ).with_description(String::from_str("operation not supported"));
                    return Err(e);
                },
            }
            let ghost m_arm = self.machine();
            proof {
                assert(sem_instr(pv, m_b, scope, index as int, depth as nat) == StepV::Next(
                    m_arm,
                    index as int + 1 + jump,
                ));
            }
            self.tick();
            let rem = program.len() - (index + 1);
            let next = if jump > rem {
                program.len()
            } else {
                index + 1 + jump
            };
            proof {
                assert(self.machine() == sem_tick(m_arm));
                assert(sem_exec(pv, m_b, scope, index as int, depth as nat) == sem_exec(
                    pv,
                    self.machine(),
                    scope,
                    next as int,
                    depth as nat,
                ));
            }
            index = next;
        }
        Ok(())
    }

    /// One activation, between the creation and the death of its child
    /// scope (arena index `cs`): the caller pushes the scope first and
    /// drops it afterwards.
    #[verifier::loop_isolation(false)]
    #[verifier::rlimit(100)]
    fn do_call(
        &mut self,
        program: &Program,
        instruction: &Instruction,
        at: usize,
        scope: usize,
        cs: usize,
        depth: usize,
    ) -> (r: Result<(), Error>)
        requires
            old(self).wf(),
            depth >= 1,
            (at as int) < program@.len(),
            instruction@ == program_view(program@)[at as int],
            scope < old(self).machine().scopes.len(),
            cs < old(self).machine().scopes.len(),
        ensures
            final(self).wf(),
            final(self).scope_idx() == old(self).scope_idx(),
            final(self).machine().scopes.len() == old(self).machine().scopes.len(),
            ({
                let (mr, res) = sem_call_inner(
                    program_view(program@),
                    old(self).machine(),
                    scope,
                    cs,
                    at as int,
                    depth as nat,
                );
                &&& final(self).machine() == mr
                &&& match r {
                    Ok(()) => res is Ok,
                    Err(e) => res matches Err(x) && err_at(e) == x,
                }
            }),
        decreases depth, 0int,
    {
        let ghost pv = program_view(program@);
        let ghost m_in = old(self).machine();
        let ghost iv = pv[at as int];

        let total = program.len();
        proof {
            assert(at < total);
        }

        // The argument block trails the call site and runs first, in
        // the child scope.
        match self.exec_at(program, at + 1, cs, depth - 1) {
            Ok(()) => {},
            Err(e) => {
                return Err(e);
            },
        }

        let ghost m2 = self.machine();

        // The block left the argument count on top.
        let cnt_ref = match self.pop(instruction) {
            Ok(v) => v,
            Err(e) => {
                return Err(e);
            },
        };
        let cnt_val = self.deref_ref(cnt_ref);
        let count: usize = match &cnt_val {
            Value::Int(i) => #[verifier::truncate] (*i as usize),
            _ => {
                return Err(
                    Error::new(
                        instruction.offset,
                        instruction.width,
                        ErrorType::VMError(VMErrorType::InvalidArgumentCountType),
                    ),
                );
            },
        };

        // The arguments themselves, resolved in the child scope.
        let ghost m3 = self.machine();
        let mut args: Vec<ValueRef> = Vec::new();
        let mut k: usize = 0;
        while k < count
            invariant
                self.wf(),
                self.scope_idx() == old(self).scope_idx(),
                self.machine().scopes.len() == m_in.scopes.len(),
                k <= count,
                args@.len() == k,
                ({
                    let (mr, rr) = sem_pop_args(self.machine(), cs, (count - k) as nat, iv);
                    sem_pop_args(m3, cs, count as nat, iv) == (
                        mr,
                        match rr {
                            Ok(rest) => Ok::<Seq<ValueRef>, ErrAt>(args@ + rest),
                            Err(e) => Err::<Seq<ValueRef>, ErrAt>(e),
                        },
                    )
                }),
            decreases count - k,
        {
            let ghost mk = self.machine();
            let vr = match self.pop(instruction) {
                Ok(v) => v,
                Err(e) => {
                    return Err(e);
                },
            };
            let resolved = self.get_variable(cs, vr);
            proof {
                let (mr2, rr2) = sem_pop_args(self.machine(), cs, (count - k - 1) as nat, iv);
                if let Ok(rest2) = rr2 {
                    assert(args@ + (seq![resolved] + rest2) =~= args@.push(resolved) + rest2);
                }
            }
            args.push(resolved);
            k = k + 1;
        }
        proof {
            assert(args@ + Seq::<ValueRef>::empty() =~= args@);
            assert(sem_pop_args(m3, cs, count as nat, iv) == (self.machine(), Ok::<
                Seq<ValueRef>,
                ErrAt,
            >(args@)));
        }

        // The callee sits below the argument block on the caller's
        // stack and resolves in the caller's scope.
        let func_ref = match self.pop(instruction) {
            Ok(v) => v,
            Err(e) => {
                return Err(e);
            },
        };
        let func_res = self.get_variable(scope, func_ref);
        let func_val = self.deref_ref(func_res);
        let position: usize = match &func_val {
            Value::Function { position } => *position,
            _ => {
                return Err(
                    Error::new(
                        instruction.offset,
                        instruction.width,
                        ErrorType::VMError(VMErrorType::InvalidCast),
                    ).with_description(
                        String::from_str("value cannot be cast to a function"),
                    ),
                );
            },
        };

        if position >= program.len() {
            return Err(
                Error::new(
                    instruction.offset,
                    instruction.width,
                    ErrorType::VMError(VMErrorType::InvalidFunctionValue),
                ),
            );
        }

        let ghost m5 = self.machine();
        match &program[position].code {
            Code::PushFunction { pars, body_len: _bl } => {
                let ghost parsv = pars@.map_values(|t: String| t@);
                proof {
                    assert(pv[position as int].code == (CodeV::PushFunction {
                        pars: parsv,
                        body_len: *_bl,
                    }));
                }
                if pars.len() != args.len() {
                    return Err(
                        Error::new(
                            instruction.offset,
                            instruction.width,
                            ErrorType::VMError(VMErrorType::MismatchedArgumentCount),
                        ),
                    );
                }

                // Arguments were popped in reverse stack order; binding
                // reverses them back to declaration order.
                let n = pars.len();
                let ghost m_b0 = self.machine();
                let mut bi: usize = 0;
                while bi < n
                    invariant
                        self.wf(),
                        self.scope_idx() == old(self).scope_idx(),
                        self.machine().scopes.len() == m_in.scopes.len(),
                        cs < self.machine().scopes.len(),
                        bi <= n,
                        n == parsv.len(),
                        n == pars@.len(),
                        args@.len() == n,
                        parsv == pars@.map_values(|t: String| t@),
                        sem_bind_pars(m_b0, cs, parsv, args@, 0) == sem_bind_pars(
                            self.machine(),
                            cs,
                            parsv,
                            args@,
                            bi as nat,
                        ),
                    decreases n - bi,
                {
                    let key = pars[bi].clone();
                    let av = args[n - 1 - bi];
                    self.set_variable(cs, key, av);
                    bi = bi + 1;
                }
                proof {
                    assert(sem_bind_pars(m_b0, cs, parsv, args@, 0) == self.machine());
                }

                // The inlined body starts right after the PushFunction
                // instruction and runs in the child scope.
                match self.exec_at(program, position + 1, cs, depth - 1) {
                    Ok(()) => {},
                    Err(e) => {
                        return Err(e);
                    },
                }

                // Whatever value the body left becomes the call's
                // result on the caller's stack; a body that left none
                // yields none.
                match self.pop(instruction) {
                    Ok(vr) => {
                        let rv = self.get_variable(cs, vr);
                        match self.push(instruction, rv) {
                            Ok(()) => Ok(()),
                            Err(e) => Err(e),
                        }
                    },
                    Err(_) => Ok(()),
                }
            },
            _ => {
                Err(
                    Error::new(
                        instruction.offset,
                        instruction.width,
                        ErrorType::VMError(VMErrorType::InvalidFunctionValue),
                    ),
                )
            },
        }
    }
}


impl VMInstance {
    /// Interprets `program` from `from` in this engine's own scope,
    /// with the full call-depth budget.
    pub fn do_exec(&mut self, program: &Program, from: usize) -> (r: Result<(), Error>)
        requires
            old(self).wf(),
        ensures
            final(self).wf(),
            final(self).scope_idx() == old(self).scope_idx(),
            ({
                let (m2, res) = sem_exec(
                    program_view(program@),
                    old(self).machine(),
                    old(self).scope_idx(),
                    from as int,
                    CALL_DEPTH as nat,
                );
                &&& final(self).machine() == m2
                &&& match r {
                    Ok(()) => res is Ok,
                    Err(e) => res matches Err(x) && err_at(e) == x,
                }
            }),
    {
        let scope = self.scope;
        self.exec_at(program, from, scope, CALL_DEPTH)
    }

    /// Runs the program from `from` and renders the value it left on
    /// top of the stack; an empty stack reads as `Null`. The machine's
    /// state persists, so a later run can resume where this one ended.
    pub fn exec(&mut self, program: &Program, from: usize) -> (r: Result<String, Error>)
        requires
            old(self).wf(),
        ensures
            final(self).wf(),
            final(self).scope_idx() == old(self).scope_idx(),
            ({
                let (m2, res) = sem_run(
                    program_view(program@),
                    old(self).machine(),
                    old(self).scope_idx(),
                    from as int,
                );
                &&& final(self).machine() == m2
                &&& match r {
                    Ok(s) => res matches Ok(t) && s@ == t,
                    Err(e) => res matches Err(x) && err_at(e) == x,
                }
            }),
    {
        let scope = self.scope;
        match self.exec_at(program, from, scope, CALL_DEPTH) {
            Ok(()) => {},
            Err(e) => {
                return Err(e);
            },
        }

        let null_instruction = Instruction::new(0, 0, Code::Null);
        proof {
            assert(null_instruction@ == null_instr());
        }
        match self.pop(&null_instruction) {
            Ok(vr) => {
                let rv = self.get_variable(scope, vr);
                let v = self.deref_ref(rv);
                Ok(v.render())
            },
            Err(_) => {
                let v = Value::Null;
                Ok(v.render())
            },
        }
    }
}

/// The machine a caller holds: it creates its engine on the first run
/// and keeps it alive across runs, so variables and pooled values
/// persist until collected.
#[derive(Debug)]
pub struct VM {
    root_instance: Option<VMInstance>,
}

impl VM {
    /// Soundness of the engine, if one exists yet.
    pub closed spec fn wf(&self) -> bool {
        match self.root_instance {
            Some(i) => i.wf(),
            None => true,
        }
    }

    /// The machine and scope of the engine, if one exists yet.
    pub closed spec fn instance_view(&self) -> Option<(MachineV, usize)> {
        match self.root_instance {
            Some(i) => Some((i.machine(), i.scope_idx())),
            None => None,
        }
    }

    /// A machine with no engine yet; the first run creates it.
    pub fn new() -> (r: Self)
        ensures
            r.wf(),
            r.instance_view() is None,
    {
        VM { root_instance: None }
    }

    /// Runs the program from `offset` on the persistent engine,
    /// creating a fresh one on the first run.
    pub fn exec(&mut self, program: &Program, offset: usize) -> (r: Result<String, Error>)
        requires
            old(self).wf(),
        ensures
            final(self).wf(),
            ({
                let (m0, sc): (MachineV, usize) = match old(self).instance_view() {
                    Some(p) => p,
                    None => (init_machine(), 0),
                };
                let (m2, res) = sem_run(program_view(program@), m0, sc, offset as int);
                &&& final(self).instance_view() matches Some(p2) && p2.0 == m2 && p2.1 == sc
                &&& match r {
                    Ok(s) => res matches Ok(t) && s@ == t,
                    Err(e) => res matches Err(x) && err_at(e) == x,
                }
            }),
    {
        let mut instance = match self.root_instance.take() {
            Some(i) => i,
            None => VMInstance::new(),
        };
        let r = instance.exec(program, offset);
        self.root_instance = Some(instance);
        r
    }

    /// Sweeps the pool of the persistent engine, if one exists: every
    /// value still referenced from a stack slot or a scope binding
    /// remains, everything else is freed.
    pub fn garbage(&mut self)
        requires
            old(self).wf(),
        ensures
            final(self).wf(),
            match old(self).instance_view() {
                Some(p) => final(self).instance_view() matches Some(p2) && p2.0 == sem_gc(p.0)
                    && p2.1 == p.1,
                None => final(self).instance_view() is None,
            },
    {
        match self.root_instance.take() {
            Some(mut i) => {
                i.garbage();
                self.root_instance = Some(i);
            },
            None => {},
        }
    }
}

} // verus!
