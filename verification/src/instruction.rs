//! Bytecode: one instruction is an opcode with its inline operand plus the
//! source span it was generated from.
//!
//! A `Program` is a flat, ordered sequence of instructions. Function
//! bodies are inlined in place: a `PushFunction` instruction carries
//! `body_len`, the number of instructions (including the trailing
//! `Return`) that straight-line execution must skip; the body is entered
//! only through a call. `CallFunction` carries `args_len`, the length of
//! the evaluated-argument block that trails the call site.

use vstd::prelude::*;

use crate::ast::Expression;

verus! {

/// An opcode together with its inline operand. `PushFloat` holds the bit
/// pattern of an IEEE 754 binary64 value.
#[derive(Debug, Clone)]
pub enum Code {
    Null,
    Add,
    Subtract,
    Multiply,
    Divide,
    Assign,
    Pop,
    Return,
    PushNull,
    PushNum(i32),
    PushFloat(u64),
    PushString(String),
    PushVar(String),
    PushList(i32),
    PushFunction { pars: Vec<String>, body_len: usize },
    CallFunction { args_len: usize },
}

/// Model of a `Code`.
pub enum CodeV {
    Null,
    Add,
    Subtract,
    Multiply,
    Divide,
    Assign,
    Pop,
    Return,
    PushNull,
    PushNum(i32),
    PushFloat(u64),
    PushString(Seq<char>),
    PushVar(Seq<char>),
    PushList(i32),
    PushFunction { pars: Seq<Seq<char>>, body_len: usize },
    CallFunction { args_len: usize },
}

impl View for Code {
    type V = CodeV;

    open spec fn view(&self) -> CodeV {
        match self {
            Code::Null => CodeV::Null,
            Code::Add => CodeV::Add,
            Code::Subtract => CodeV::Subtract,
            Code::Multiply => CodeV::Multiply,
            Code::Divide => CodeV::Divide,
            Code::Assign => CodeV::Assign,
            Code::Pop => CodeV::Pop,
            Code::Return => CodeV::Return,
            Code::PushNull => CodeV::PushNull,
            Code::PushNum(i) => CodeV::PushNum(*i),
            Code::PushFloat(bits) => CodeV::PushFloat(*bits),
            Code::PushString(s) => CodeV::PushString(s@),
            Code::PushVar(id) => CodeV::PushVar(id@),
            Code::PushList(n) => CodeV::PushList(*n),
            Code::PushFunction { pars, body_len } => CodeV::PushFunction {
                pars: pars@.map_values(|s: String| s@),
                body_len: *body_len,
            },
            Code::CallFunction { args_len } => CodeV::CallFunction { args_len: *args_len },
        }
    }
}

/// A single bytecode unit: opcode plus the source span it came from.
#[derive(Debug, Clone)]
pub struct Instruction {
    pub offset: usize,
    pub width: usize,
    pub code: Code,
}

/// Model of an `Instruction`.
pub struct InstructionV {
    pub offset: usize,
    pub width: usize,
    pub code: CodeV,
}

impl View for Instruction {
    type V = InstructionV;

    open spec fn view(&self) -> InstructionV {
        InstructionV { offset: self.offset, width: self.width, code: self.code@ }
    }
}

impl Instruction {
    /// An instruction anchored to an explicit source span.
    pub fn new(offset: usize, width: usize, code: Code) -> (r: Self)
        ensures
            r@ == (InstructionV { offset, width, code: code@ }),
    {
        Instruction { offset, width, code }
    }

    /// An instruction anchored to the span of the expression it encodes.
    pub fn from_expression(expr: &Expression, code: Code) -> (r: Self)
        ensures
            r@ == (InstructionV { offset: expr.offset, width: expr.width, code: code@ }),
    {
        Instruction::new(expr.offset, expr.width, code)
    }
}

/// An ordered, flat sequence of instructions.
pub type Program = Vec<Instruction>;

/// The model of a program: the views of its instructions, in order.
pub open spec fn program_view(p: Seq<Instruction>) -> Seq<InstructionV> {
    p.map_values(|i: Instruction| i@)
}

/// Bare opcode tags, without operands.
#[allow(non_camel_case_types)]
#[derive(Debug, PartialEq, Eq, Hash, Copy, Clone)]
pub enum OPCode {
    NULL,
    END,
    ADD,
    SUBTRACT,
    MULTIPLY,
    DIVIDE,
    ASSIGN,
    PUSH_NUM,
    PUSH_FLOAT,
    PUSH_STRING,
    PUSH_FUNCTION,
}

} // verus!
