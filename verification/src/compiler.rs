//! The bytecode compiler: a pure syntax-tree-to-program transform.
//!
//! The whole transform is specified by the `compile_*` spec functions,
//! and every method of `Compiler` is proved to produce exactly what they
//! say. By the compiler's layout:
//!
//! - a function literal compiles to `PushFunction` followed immediately
//!   by the compiled body and a trailing `Return`, with `body_len`
//!   covering body and `Return`;
//! - a call compiles to the callee's code, one `CallFunction`, then the
//!   trailing argument block (each argument's code, a `PushNum` with the
//!   argument count, and a `Return`), with `args_len` covering exactly
//!   that block;
//! - a statement closed by a separator gets a trailing `Pop`.

use vstd::prelude::*;
use vstd::string::StringExecFns;

use crate::ast::AST;
use crate::ast::Declaration;
use crate::ast::DeclarationType;
use crate::ast::DeclarationTypeV;
use crate::ast::DeclarationV;
use crate::ast::Expression;
use crate::ast::ExpressionType;
use crate::ast::ExpressionTypeV;
use crate::ast::ExpressionV;
use crate::ast::Literal;
use crate::ast::Primary;
use crate::ast::PrimaryV;
use crate::ast::LiteralV;
use crate::ast::Statement;
use crate::ast::StatementType;
use crate::ast::StatementTypeV;
use crate::ast::StatementV;
use crate::ast::Token;
use crate::ast::decls_view;
use crate::ast::exprs_view;
use crate::ast::lemma_decls_view;
use crate::ast::lemma_exprs_view;
use crate::error::CompilerErrorType;
use crate::error::ErrAt;
use crate::error::Error;
use crate::error::ErrorType;
use crate::error::err_at;
use crate::instruction::Code;
use crate::instruction::CodeV;
use crate::instruction::Instruction;
use crate::instruction::InstructionV;
use crate::instruction::Program;
use crate::instruction::program_view;

verus! {

/// The opcode a binary operator compiles to, or `None` when the
/// operator is not implemented.
pub open spec fn binary_code(operator: Token) -> Option<CodeV> {
    match operator {
        Token::Plus => Some(CodeV::Add),
        Token::Minus => Some(CodeV::Subtract),
        Token::FSlash => Some(CodeV::Divide),
        Token::Asterix => Some(CodeV::Multiply),
        Token::Equals => Some(CodeV::Assign),
        _ => None,
    }
}

/// The single push instruction a primary compiles to.
pub open spec fn primary_code(p: PrimaryV) -> CodeV {
    match p {
        PrimaryV::Literal(l) => match l {
            LiteralV::Null => CodeV::PushNull,
            LiteralV::Int(i) => CodeV::PushNum(i),
            LiteralV::Float(f) => CodeV::PushFloat(f),
            LiteralV::String(s) => CodeV::PushString(s),
        },
        PrimaryV::Identifier(id) => CodeV::PushVar(id),
    }
}

/// The `body_len` operand for a function body of `n` instructions: the
/// body plus its trailing `Return`, wrapping at the machine word as the
/// length arithmetic does.
pub open spec fn body_len_of(n: nat) -> usize {
    if n + 1 <= usize::MAX {
        (n + 1) as usize
    } else {
        0
    }
}

/// What the compiler emits for one expression.
pub open spec fn compile_expr(e: ExpressionV) -> Result<Seq<InstructionV>, ErrAt>
    decreases e,
{
    match e.expression_type {
        ExpressionTypeV::Empty => Ok(Seq::empty()),
        ExpressionTypeV::Primary(p) => Ok(
            seq![InstructionV { offset: e.offset, width: e.width, code: primary_code(p) }],
        ),
        ExpressionTypeV::Binary { left, right, operator, offset, width } => {
            match binary_code(operator) {
                Some(code) => match compile_expr(*left) {
                    Err(x) => Err(x),
                    Ok(l) => match compile_expr(*right) {
                        Err(x) => Err(x),
                        Ok(r) => Ok(l + r + seq![InstructionV { offset, width, code }]),
                    },
                },
                None => Err(
                    ErrAt {
                        offset,
                        width,
                        error_type: ErrorType::CompilerError(CompilerErrorType::NotImplemented),
                    },
                ),
            }
        },
        ExpressionTypeV::Function { pars, body } => match compile_decls(body) {
            Err(x) => Err(x),
            Ok(b) => Ok(
                seq![
                    InstructionV {
                        offset: e.offset,
                        width: e.width,
                        code: CodeV::PushFunction { pars, body_len: body_len_of(b.len()) },
                    },
                ] + b + seq![InstructionV { offset: e.offset, width: e.width, code: CodeV::Return }],
            ),
        },
        ExpressionTypeV::FunctionCall { func, args } => match compile_exprs(args) {
            Err(x) => Err(x),
            Ok(argcode) => match compile_expr(*func) {
                Err(x) => Err(x),
                Ok(fcode) => {
                    let tail = argcode + seq![
                        InstructionV {
                            offset: e.offset,
                            width: e.width,
                            code: CodeV::PushNum(args.len() as i32),
                        },
                        InstructionV { offset: e.offset, width: e.width, code: CodeV::Return },
                    ];
                    Ok(
                        fcode + seq![
                            InstructionV {
                                offset: e.offset,
                                width: e.width,
                                code: CodeV::CallFunction { args_len: tail.len() as usize },
                            },
                        ] + tail,
                    )
                },
            },
        },
        ExpressionTypeV::List(items) => match compile_exprs(items) {
            Err(x) => Err(x),
            Ok(code) => Ok(
                code + seq![
                    InstructionV {
                        offset: e.offset,
                        width: e.width,
                        code: CodeV::PushList(items.len() as i32),
                    },
                ],
            ),
        },
    }
}

/// What the compiler emits for a sequence of expressions, in order; the
/// first failing expression decides the error.
pub open spec fn compile_exprs(items: Seq<ExpressionV>) -> Result<Seq<InstructionV>, ErrAt>
    decreases items,
{
    if items.len() == 0 {
        Ok(Seq::empty())
    } else {
        match compile_expr(items[0]) {
            Err(x) => Err(x),
            Ok(first) => match compile_exprs(items.drop_first()) {
                Err(x) => Err(x),
                Ok(rest) => Ok(first + rest),
            },
        }
    }
}

/// What the compiler emits for one statement.
pub open spec fn compile_stmt(s: StatementV) -> Result<Seq<InstructionV>, ErrAt>
    decreases s,
{
    match s.statement_type {
        StatementTypeV::Expression(e) => match compile_expr(e) {
            Err(x) => Err(x),
            Ok(code) => Ok(
                if s.end {
                    code.push(InstructionV { offset: s.offset, width: s.width, code: CodeV::Pop })
                } else {
                    code
                },
            ),
        },
    }
}

/// What the compiler emits for one declaration.
pub open spec fn compile_decl(d: DeclarationV) -> Result<Seq<InstructionV>, ErrAt>
    decreases d,
{
    match d.declaration_type {
        DeclarationTypeV::Statement(s) => compile_stmt(s),
    }
}

/// What the compiler emits for a whole program, in declaration order;
/// the first failing declaration decides the error.
pub open spec fn compile_decls(ds: Seq<DeclarationV>) -> Result<Seq<InstructionV>, ErrAt>
    decreases ds,
{
    if ds.len() == 0 {
        Ok(Seq::empty())
    } else {
        match compile_decl(ds[0]) {
            Err(x) => Err(x),
            Ok(first) => match compile_decls(ds.drop_first()) {
                Err(x) => Err(x),
                Ok(rest) => Ok(first + rest),
            },
        }
    }
}

/// `r` is exactly what the specification `s` calls for: the same
/// instructions on success, an error with the same position and kind on
/// failure.
pub open spec fn emits(r: Result<Builder, Error>, s: Result<Seq<InstructionV>, ErrAt>) -> bool {
    match r {
        Ok(b) => s matches Ok(code) && b@ == code,
        Err(e) => s matches Err(x) && err_at(e) == x,
    }
}

/// An ordered accumulator of instructions.
pub struct Builder {
    list: Vec<Instruction>,
}

impl View for Builder {
    type V = Seq<InstructionV>;

    closed spec fn view(&self) -> Seq<InstructionV> {
        program_view(self.list@)
    }
}

impl Builder {
    /// An empty accumulator.
    pub fn new() -> (r: Self)
        ensures
            r@ == Seq::<InstructionV>::empty(),
    {
        let r = Builder { list: Vec::new() };
        proof {
            assert(r@ =~= Seq::<InstructionV>::empty());
        }
        r
    }

    /// An accumulator holding one instruction.
    pub fn from(instruction: Instruction) -> (r: Self)
        ensures
            r@ == seq![instruction@],
    {
        let mut list = Vec::new();
        let ghost iv = instruction@;
        list.push(instruction);
        let r = Builder { list };
        proof {
            assert(r@ =~= seq![iv]);
        }
        r
    }

    /// Appends one instruction at the back.
    pub fn push_back(self, instruction: Instruction) -> (r: Self)
        ensures
            r@ == self@.push(instruction@),
    {
        let ghost before = self@;
        let ghost iv = instruction@;
        let mut list = self.list;
        list.push(instruction);
        let r = Builder { list };
        proof {
            assert(r@ =~= before.push(iv));
        }
        r
    }

    /// Appends a whole accumulator at the back.
    pub fn append(self, builder: Builder) -> (r: Self)
        ensures
            r@ == self@ + builder@,
    {
        let ghost before = self@;
        let ghost other = builder@;
        let mut list = self.list;
        let mut tail = builder.list;
        list.append(&mut tail);
        let r = Builder { list };
        proof {
            assert(r@ =~= before + other);
        }
        r
    }

    /// The accumulated instructions as a program.
    pub fn to_vec(self) -> (r: Vec<Instruction>)
        ensures
            program_view(r@) == self@,
    {
        self.list
    }

    /// How many instructions have been accumulated.
    pub fn len(&self) -> (r: usize)
        ensures
            r == self@.len(),
    {
        self.list.len()
    }
}

/// A compiler fault at the given span.
fn not_implemented(offset: usize, width: usize) -> (r: Error)
    ensures
        err_at(r) == (ErrAt {
            offset,
            width,
            error_type: ErrorType::CompilerError(CompilerErrorType::NotImplemented),
        }),
{
    Error::new(offset, width, ErrorType::CompilerError(CompilerErrorType::NotImplemented))
}

/// Walks the syntax tree and emits a flat bytecode program. Owns no
/// state: compilation is a pure transform.
pub struct Compiler {}

impl Compiler {
    pub fn new() -> Self {
        Compiler {}
    }

    fn declaration(&mut self, declaration: &Declaration) -> (r: Result<Builder, Error>)
        ensures
            emits(r, compile_decl(declaration@)),
        decreases declaration,
    {
        match &declaration.declaration_type {
            DeclarationType::Statement(statement) => self.statement(statement),
        }
    }

    fn statement(&mut self, statement: &Statement) -> (r: Result<Builder, Error>)
        ensures
            emits(r, compile_stmt(statement@)),
        decreases statement,
    {
        let mut stmt = match &statement.statement_type {
            StatementType::Expression(expression) => match self.expression(expression) {
                Ok(b) => b,
                Err(e) => {
                    return Err(e);
                },
            },
        };

        if statement.end {
            stmt = stmt.push_back(Instruction::new(statement.offset, statement.width, Code::Pop));
        }

        Ok(stmt)
    }

    /// Compiles a run of expressions in order, concatenating their code;
    /// the first failing expression decides the error.
    #[verifier::loop_isolation(false)]
    fn expressions(&mut self, items: &Vec<Expression>) -> (r: Result<Builder, Error>)
        ensures
            emits(r, compile_exprs(exprs_view(items@))),
        decreases items,
    {
        let ghost avs = exprs_view(items@);
        proof {
            lemma_exprs_view(items@);
            assert(avs.skip(0) =~= avs);
        }
        let mut instructions = Builder::new();
        let mut i: usize = 0;
        while i < items.len()
            invariant
                i <= items.len(),
                compile_exprs(avs) == (match compile_exprs(avs.skip(i as int)) {
                    Ok(rest) => Ok::<Seq<InstructionV>, ErrAt>(instructions@ + rest),
                    Err(x) => Err::<Seq<InstructionV>, ErrAt>(x),
                }),
            decreases items.len() - i,
        {
            let ghost tail = avs.skip(i as int);
            proof {
                assert(tail[0] == avs[i as int]);
                assert(tail.drop_first() =~= avs.skip(i as int + 1));
            }
            match self.expression(&items[i]) {
                Ok(b) => {
                    proof {
                        if let Ok(rest2) = compile_exprs(avs.skip(i as int + 1)) {
                            assert((instructions@ + b@) + rest2 =~= instructions@ + (b@ + rest2));
                        }
                    }
                    instructions = instructions.append(b);
                },
                Err(e) => {
                    return Err(e);
                },
            }
            i = i + 1;
        }
        proof {
            assert(avs.skip(items@.len() as int) =~= Seq::<ExpressionV>::empty());
        }
        Ok(instructions)
    }

    #[verifier::loop_isolation(false)]
    fn expression(&mut self, expr: &Expression) -> (r: Result<Builder, Error>)
        ensures
            emits(r, compile_expr(expr@)),
        decreases expr,
    {
        match &expr.expression_type {
            ExpressionType::Empty => Ok(Builder::new()),
            ExpressionType::Primary(primary) => {
                let code = match primary {
                    Primary::Literal(literal) => match literal {
                        Literal::Null => Code::PushNull,
                        Literal::Int(i) => Code::PushNum(*i),
                        Literal::Float(f) => Code::PushFloat(*f),
                        Literal::String(s) => Code::PushString(s.clone()),
                    },
                    Primary::Identifier(identifier) => Code::PushVar(identifier.clone()),
                };
                Ok(Builder::from(Instruction::from_expression(expr, code)))
            },
            ExpressionType::Binary { left, right, operator, offset, width } => {
                let code = match operator {
                    Token::Plus => Code::Add,
                    Token::Minus => Code::Subtract,
                    Token::FSlash => Code::Divide,
                    Token::Asterix => Code::Multiply,
                    Token::Equals => Code::Assign,
                    _ => {
                        return Err(
                            not_implemented(*offset, *width).with_description(
                                String::from_str("unimplemented operator"),
                            ),
                        );
                    },
                };

                let l = match self.expression(left) {
                    Ok(b) => b,
                    Err(e) => {
                        return Err(e);
                    },
                };
                let r_code = match self.expression(right) {
                    Ok(b) => b,
                    Err(e) => {
                        return Err(e);
                    },
                };
                let result = Builder::new().append(l).append(r_code).push_back(
                    Instruction::new(*offset, *width, code),
                );
                proof {
                    assert(result@ =~= compile_expr(expr@)->Ok_0);
                }
                Ok(result)
            },
            ExpressionType::Function { pars, body } => {
                let body_code = match self.get_compiled(body) {
                    Ok(b) => b,
                    Err(e) => {
                        return Err(e);
                    },
                };
                let body_count = body_code.len();
                let body_len = body_count.wrapping_add(1);

                let mut pars_copy: Vec<String> = Vec::new();
                let mut i: usize = 0;
                while i < pars.len()
                    invariant
                        i <= pars.len(),
                        pars_copy@.len() == i,
                        forall|j: int| 0 <= j < i ==> pars_copy@[j]@ == pars@[j]@,
                    decreases pars.len() - i,
                {
                    pars_copy.push(pars[i].clone());
                    i = i + 1;
                }
                proof {
                    assert(pars_copy@.map_values(|s: String| s@) =~= pars@.map_values(
                        |s: String| s@,
                    ));
                    let ghost b = compile_decls(decls_view(body@))->Ok_0;
                    assert(body_code@ == b);
                    assert(body_len == body_len_of(b.len()));
                }

                let result = Builder::from(
                    Instruction::from_expression(
                        expr,
                        Code::PushFunction { pars: pars_copy, body_len },
                    ),
                ).append(body_code).push_back(Instruction::from_expression(expr, Code::Return));
                proof {
                    assert(result@ =~= compile_expr(expr@)->Ok_0);
                }
                Ok(result)
            },
            ExpressionType::FunctionCall { func, args } => {
                proof {
                    lemma_exprs_view(args@);
                }
                let instructions = match self.expressions(args) {
                    Ok(b) => b,
                    Err(e) => {
                        return Err(e);
                    },
                };

                let count = #[verifier::truncate] (args.len() as i32);
                let args_builder = instructions.push_back(
                    Instruction::from_expression(expr, Code::PushNum(count)),
                ).push_back(Instruction::from_expression(expr, Code::Return));

                let f = match self.expression(func) {
                    Ok(b) => b,
                    Err(e) => {
                        return Err(e);
                    },
                };

                let args_len = args_builder.len();
                let result = f.push_back(
                    Instruction::from_expression(expr, Code::CallFunction { args_len }),
                ).append(args_builder);
                proof {
                    assert(result@ =~= compile_expr(expr@)->Ok_0);
                }
                Ok(result)
            },
            ExpressionType::List(list) => {
                proof {
                    lemma_exprs_view(list@);
                }
                let instructions = match self.expressions(list) {
                    Ok(b) => b,
                    Err(e) => {
                        return Err(e);
                    },
                };
                let count = #[verifier::truncate] (list.len() as i32);
                let result = instructions.push_back(
                    Instruction::from_expression(expr, Code::PushList(count)),
                );
                proof {
                    assert(result@ =~= compile_expr(expr@)->Ok_0);
                }
                Ok(result)
            },
        }
    }

    #[verifier::loop_isolation(false)]
    fn get_compiled(&mut self, ast: &AST) -> (r: Result<Builder, Error>)
        ensures
            emits(r, compile_decls(decls_view(ast@))),
        decreases ast,
    {
        let ghost dvs = decls_view(ast@);
        proof {
            lemma_decls_view(ast@);
            assert(dvs.skip(0) =~= dvs);
        }
        let mut program = Builder::new();
        let mut i: usize = 0;
        while i < ast.len()
            invariant
                i <= ast.len(),
                compile_decls(dvs) == (match compile_decls(dvs.skip(i as int)) {
                    Ok(rest) => Ok::<Seq<InstructionV>, ErrAt>(program@ + rest),
                    Err(x) => Err::<Seq<InstructionV>, ErrAt>(x),
                }),
            decreases ast.len() - i,
        {
            let ghost tail = dvs.skip(i as int);
            proof {
                assert(tail[0] == dvs[i as int]);
                assert(tail.drop_first() =~= dvs.skip(i as int + 1));
            }
            match self.declaration(&ast[i]) {
                Ok(b) => {
                    proof {
                        if let Ok(rest2) = compile_decls(dvs.skip(i as int + 1)) {
                            assert((program@ + b@) + rest2 =~= program@ + (b@ + rest2));
                        }
                    }
                    program = program.append(b);
                },
                Err(e) => {
                    return Err(e);
                },
            }
            i = i + 1;
        }
        proof {
            assert(dvs.skip(ast@.len() as int) =~= Seq::<DeclarationV>::empty());
        }
        Ok(program)
    }

    /// Compiles a whole syntax tree to a program, or reports the first
    /// unsupported construct.
    pub fn compile(&mut self, ast: &AST) -> (r: Result<Program, Error>)
        ensures
            match r {
                Ok(p) => compile_decls(decls_view(ast@)) matches Ok(code) && program_view(p@)
                    == code,
                Err(e) => compile_decls(decls_view(ast@)) matches Err(x) && err_at(e) == x,
            },
    {
        match self.get_compiled(ast) {
            Ok(b) => Ok(b.to_vec()),
            Err(e) => Err(e),
        }
    }
}

/// Compilation is a function of the syntax tree alone: compiling the
/// same tree twice yields structurally identical programs, with the same
/// opcode sequence and the same body and argument-block lengths. (The
/// executable `Compiler::compile` is pinned to `compile_decls`, so any
/// two runs on equal trees return programs with equal models.)
pub proof fn lemma_compile_idempotent(a: Seq<DeclarationV>, b: Seq<DeclarationV>)
    requires
        a == b,
    ensures
        compile_decls(a) == compile_decls(b),
{
}

} // verus!
