//! Error envelope shared by every stage of the toolchain.
//!
//! Every fault is anchored to a source position (`offset`, `width`) and
//! carries a kind drawn from one of the per-stage enums. Optional text
//! (the source code, a file name, a help line, a description) can be
//! attached after construction with the builder methods.

use vstd::prelude::*;
use vstd::string::StringExecFns;
use vstd::string::StringSliceAdditionalSpecFns;

verus! {

/// Faults the lexer can report.
#[derive(Debug, Clone, Copy, PartialEq, Eq, Structural)]
pub enum LexerErrorType {
    UnexpectedEndOfString,
    UnknownToken,
}

/// Faults the parser can report.
#[derive(Debug, Clone, Copy, PartialEq, Eq, Structural)]
pub enum ParserErrorType {
    Unknown,
    UnexpectedToken,
    UnclosedParenthesis,
    UnclosedBracket,
    UnclosedBrace,
}

/// Faults the bytecode compiler can report.
#[derive(Debug, Clone, Copy, PartialEq, Eq, Structural)]
pub enum CompilerErrorType {
    NotImplemented,
}

/// Faults the virtual machine can report while executing a program.
#[derive(Debug, Clone, Copy, PartialEq, Eq, Structural)]
pub enum VMErrorType {
    NotImplemented,
    InvalidCast,
    InvalidFunctionValue,
    InvalidArgumentCountType,
    StackElementUninitialized,
    OperationNotSupported,
    AssignToNonVariable,
    MismatchedArgumentCount,
    StackOverflow { stack_size: usize, index: i32 },
}

/// The kind of an error, tagged by the stage that produced it.
#[derive(Debug, Clone, Copy, PartialEq, Eq, Structural)]
pub enum ErrorType {
    LexerError(LexerErrorType),
    ParserError(ParserErrorType),
    CompilerError(CompilerErrorType),
    VMError(VMErrorType),
    Unknown,
}

/// A positioned diagnostic: where in the source it happened, what kind of
/// fault it is, and optional attached text for pretty-printing.
#[derive(Debug, Clone)]
pub struct Error {
    pub code: Option<String>,
    pub file: Option<String>,
    pub help: Option<String>,
    pub description: Option<String>,
    pub offset: usize,
    pub width: usize,
    pub error_type: ErrorType,
}

impl Error {
    /// A bare error: position and kind, with no attached text.
    pub fn new(offset: usize, width: usize, error_type: ErrorType) -> (r: Self)
        ensures
            r.code is None,
            r.file is None,
            r.help is None,
            r.description is None,
            r.offset == offset,
            r.width == width,
            r.error_type == error_type,
    {
        Self { code: None, file: None, help: None, description: None, offset, width, error_type }
    }

    /// Attaches the source text the error points into.
    pub fn with_code(self, code: String) -> (r: Self)
        ensures
            r.code matches Some(c) && c@ == code@,
            r.file == self.file,
            r.help == self.help,
            r.description == self.description,
            r.offset == self.offset,
            r.width == self.width,
            r.error_type == self.error_type,
    {
        Self { code: Some(code), ..self }
    }

    /// Attaches the name of the file the source came from.
    pub fn with_file(self, file: String) -> (r: Self)
        ensures
            r.file matches Some(f) && f@ == file@,
            r.code == self.code,
            r.help == self.help,
            r.description == self.description,
            r.offset == self.offset,
            r.width == self.width,
            r.error_type == self.error_type,
    {
        Self { file: Some(file), ..self }
    }

    /// Attaches a short hint on how to avoid the fault.
    pub fn with_help(self, help: String) -> (r: Self)
        ensures
            r.help matches Some(h) && h@ == help@,
            r.code == self.code,
            r.file == self.file,
            r.description == self.description,
            r.offset == self.offset,
            r.width == self.width,
            r.error_type == self.error_type,
    {
        Self { help: Some(help), ..self }
    }

    /// Attaches a longer description of the fault.
    pub fn with_description(self, description: String) -> (r: Self)
        ensures
            r.description matches Some(d) && d@ == description@,
            r.code == self.code,
            r.file == self.file,
            r.help == self.help,
            r.offset == self.offset,
            r.width == self.width,
            r.error_type == self.error_type,
    {
        Self { description: Some(description), ..self }
    }
}

/// The position and kind of an error: the part of an `Error` that
/// contracts pin down exactly. The attached text (code, file, help,
/// description) is diagnostic only and left open.
pub struct ErrAt {
    pub offset: usize,
    pub width: usize,
    pub error_type: ErrorType,
}

/// The pinned-down part of an error.
pub open spec fn err_at(e: Error) -> ErrAt {
    ErrAt { offset: e.offset, width: e.width, error_type: e.error_type }
}

/// `sequence` concatenated with itself `amount` times.
pub open spec fn seq_repeat(sequence: Seq<char>, amount: nat) -> Seq<char>
    decreases amount,
{
    if amount == 0 {
        Seq::empty()
    } else {
        seq_repeat(sequence, (amount - 1) as nat) + sequence
    }
}

/// Builds the string `sequence` repeated `amount` times; used by error
/// pretty-printers to draw marker and padding runs.
pub fn repeat(sequence: &str, amount: usize) -> (res: String)
    ensures
        res@ == seq_repeat(sequence@, amount as nat),
{
    let mut res = String::new();
    let mut i: usize = 0;
    while i < amount
        invariant
            i <= amount,
            res@ == seq_repeat(sequence@, i as nat),
        decreases amount - i,
    {
        res.append(sequence);
        i = i + 1;
    }
    res
}


/// One pass of the line scan: walking the bytes from the front,
/// stopping at the newline that ends the line the position sits on (or
/// at a newline that is the last byte), while keeping the start of the
/// current line, the number of newlines passed, the column of the
/// position, and the width of the current line.
pub open spec fn line_scan(
    bytes: Seq<u8>,
    pos: int,
    i: int,
    line_pos: int,
    newlines: int,
    indents: int,
    line_indents: int,
) -> (int, int, int, int)
    decreases bytes.len() - i,
{
    if i < 0 || i >= bytes.len() {
        (line_pos, newlines, indents, line_indents)
    } else if bytes[i] == 10 {
        if i >= pos || i >= bytes.len() - 1 {
            (line_pos, newlines, indents, line_indents)
        } else {
            line_scan(bytes, pos, i + 1, i + 1, newlines + 1, 0, 0)
        }
    } else {
        line_scan(
            bytes,
            pos,
            i + 1,
            line_pos,
            newlines,
            if i < pos {
                indents + 1
            } else {
                indents
            },
            line_indents + 1,
        )
    }
}

/// Where in its line a source position sits: the byte index where the
/// line starts, the line number, the column of the position, and the
/// width of the line, as the line scan computes them.
#[verifier::loop_isolation(false)]
pub fn get_line_pos(code: &str, pos: usize) -> (r: (usize, usize, usize, usize))
    ensures
        ({
            let (lp, nl, ind, li) = line_scan(code.spec_bytes(), pos as int, 0, 0, 0, 0, 0);
            r.0 == lp && r.1 == nl && r.2 == ind && r.3 == li
        }),
{
    let chars = code.as_bytes();
    let len = chars.len();

    let mut line_pos: usize = 0;
    let mut newlines: usize = 0;
    let mut indents: usize = 0;
    let mut line_indents: usize = 0;

    let mut i: usize = 0;
    while i < len
        invariant
            i <= len,
            line_pos <= i,
            newlines <= i,
            indents <= i,
            line_indents <= i,
            line_scan(chars@, pos as int, 0, 0, 0, 0, 0) == line_scan(
                chars@,
                pos as int,
                i as int,
                line_pos as int,
                newlines as int,
                indents as int,
                line_indents as int,
            ),
        decreases len - i,
    {
        if chars[i] == 10 {
            if i >= pos || i >= len - 1 {
                return (line_pos, newlines, indents, line_indents);
            }
            newlines = newlines + 1;
            indents = 0;
            line_indents = 0;
            line_pos = i + 1;
        } else {
            line_indents = line_indents + 1;
            if i < pos {
                indents = indents + 1;
            }
        }
        i = i + 1;
    }

    (line_pos, newlines, indents, line_indents)
}

} // verus!

