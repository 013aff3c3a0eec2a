//! Abstract syntax handed to the bytecode compiler.
//!
//! The tree mirrors the grammar the parser produces: a program is an
//! ordered sequence of declarations, each wrapping a statement, each
//! wrapping an expression. Every node carries the source span
//! (`offset`, `width`) it was parsed from, used for diagnostics.
//!
//! A floating-point literal is carried as the bit pattern of its IEEE 754
//! binary64 value, so the tree itself holds plain integers only.

use vstd::prelude::*;

verus! {

/// The token alphabet of the language.
#[derive(Debug, Clone, Copy, PartialEq, Eq, Structural)]
pub enum Token {
    EOF,
    SOF,
    Identifier,
    Literal,
    Rest,
    Comment,
    Space,
    Tab,
    NewLine,
    FSlash,
    Plus,
    Asterix,
    DoubleAsterix,
    Minus,
    Equals,
    DoubleEquals,
    MinusEquals,
    PlusEquals,
    ParClosed,
    ParOpen,
    BracketClosed,
    BracketOpen,
    BraceClosed,
    BraceOpen,
    SemiColon,
    Comma,
    Dot,
    Lambda,
}

/// A literal as the lexer classifies it. `Float` holds the bit pattern of
/// an IEEE 754 binary64 value.
#[derive(Debug, Clone)]
pub enum Literal {
    Null,
    String(String),
    Int(i32),
    Float(u64),
}

/// Model of a `Literal`.
pub enum LiteralV {
    Null,
    String(Seq<char>),
    Int(i32),
    Float(u64),
}

impl View for Literal {
    type V = LiteralV;

    open spec fn view(&self) -> LiteralV {
        match self {
            Literal::Null => LiteralV::Null,
            Literal::String(s) => LiteralV::String(s@),
            Literal::Int(i) => LiteralV::Int(*i),
            Literal::Float(bits) => LiteralV::Float(*bits),
        }
    }
}

/// The leaf of an expression: a literal value or a variable name.
#[derive(Debug, Clone)]
pub enum Primary {
    Literal(Literal),
    Identifier(String),
}

/// Model of a `Primary`.
pub enum PrimaryV {
    Literal(LiteralV),
    Identifier(Seq<char>),
}

impl View for Primary {
    type V = PrimaryV;

    open spec fn view(&self) -> PrimaryV {
        match self {
            Primary::Literal(l) => PrimaryV::Literal(l@),
            Primary::Identifier(id) => PrimaryV::Identifier(id@),
        }
    }
}

/// An expression with its source span.
#[derive(Debug)]
pub struct Expression {
    pub offset: usize,
    pub width: usize,
    pub expression_type: ExpressionType,
}

/// The shape of an expression.
#[derive(Debug)]
pub enum ExpressionType {
    Empty,
    Primary(Primary),
    List(Vec<Expression>),
    Binary {
        left: Box<Expression>,
        right: Box<Expression>,
        operator: Token,
        /// Span of the operator itself.
        offset: usize,
        width: usize,
    },
    Function { pars: Vec<String>, body: Vec<Declaration> },
    FunctionCall { func: Box<Expression>, args: Vec<Expression> },
}

/// A statement: an expression, plus whether a statement separator ended it.
#[derive(Debug)]
pub struct Statement {
    pub offset: usize,
    pub width: usize,
    /// True when the statement was closed by a separator, so its result
    /// is discarded rather than left as the program's value.
    pub end: bool,
    pub statement_type: StatementType,
}

/// The shape of a statement.
#[derive(Debug)]
pub enum StatementType {
    Expression(Expression),
}

/// A top-level declaration.
#[derive(Debug)]
pub struct Declaration {
    pub offset: usize,
    pub width: usize,
    pub declaration_type: DeclarationType,
}

/// The shape of a declaration.
#[derive(Debug)]
pub enum DeclarationType {
    Statement(Statement),
}

/// A whole parsed program.
pub type AST = Vec<Declaration>;

/// Model of an `Expression`.
pub struct ExpressionV {
    pub offset: usize,
    pub width: usize,
    pub expression_type: ExpressionTypeV,
}

/// Model of an `ExpressionType`.
pub enum ExpressionTypeV {
    Empty,
    Primary(PrimaryV),
    List(Seq<ExpressionV>),
    Binary {
        left: Box<ExpressionV>,
        right: Box<ExpressionV>,
        operator: Token,
        offset: usize,
        width: usize,
    },
    Function { pars: Seq<Seq<char>>, body: Seq<DeclarationV> },
    FunctionCall { func: Box<ExpressionV>, args: Seq<ExpressionV> },
}

/// Model of a `Statement`.
pub struct StatementV {
    pub offset: usize,
    pub width: usize,
    pub end: bool,
    pub statement_type: StatementTypeV,
}

/// Model of a `StatementType`.
pub enum StatementTypeV {
    Expression(ExpressionV),
}

/// Model of a `Declaration`.
pub struct DeclarationV {
    pub offset: usize,
    pub width: usize,
    pub declaration_type: DeclarationTypeV,
}

/// Model of a `DeclarationType`.
pub enum DeclarationTypeV {
    Statement(StatementV),
}

pub open spec fn expr_view(e: Expression) -> ExpressionV
    decreases e,
{
    ExpressionV {
        offset: e.offset,
        width: e.width,
        expression_type: match e.expression_type {
            ExpressionType::Empty => ExpressionTypeV::Empty,
            ExpressionType::Primary(p) => ExpressionTypeV::Primary(p@),
            ExpressionType::List(items) => ExpressionTypeV::List(exprs_view(items@)),
            ExpressionType::Binary { left, right, operator, offset, width } => {
                ExpressionTypeV::Binary {
                    left: Box::new(expr_view(*left)),
                    right: Box::new(expr_view(*right)),
                    operator,
                    offset,
                    width,
                }
            },
            ExpressionType::Function { pars, body } => ExpressionTypeV::Function {
                pars: pars@.map_values(|s: String| s@),
                body: decls_view(body@),
            },
            ExpressionType::FunctionCall { func, args } => ExpressionTypeV::FunctionCall {
                func: Box::new(expr_view(*func)),
                args: exprs_view(args@),
            },
        },
    }
}

pub open spec fn exprs_view(items: Seq<Expression>) -> Seq<ExpressionV>
    decreases items,
{
    if items.len() == 0 {
        Seq::empty()
    } else {
        exprs_view(items.drop_last()).push(expr_view(items.last()))
    }
}

pub open spec fn stmt_view(s: Statement) -> StatementV
    decreases s,
{
    StatementV {
        offset: s.offset,
        width: s.width,
        end: s.end,
        statement_type: match s.statement_type {
            StatementType::Expression(e) => StatementTypeV::Expression(expr_view(e)),
        },
    }
}

pub open spec fn decl_view(d: Declaration) -> DeclarationV
    decreases d,
{
    DeclarationV {
        offset: d.offset,
        width: d.width,
        declaration_type: match d.declaration_type {
            DeclarationType::Statement(s) => DeclarationTypeV::Statement(stmt_view(s)),
        },
    }
}

pub open spec fn decls_view(ds: Seq<Declaration>) -> Seq<DeclarationV>
    decreases ds,
{
    if ds.len() == 0 {
        Seq::empty()
    } else {
        decls_view(ds.drop_last()).push(decl_view(ds.last()))
    }
}

pub proof fn lemma_exprs_view(items: Seq<Expression>)
    ensures
        exprs_view(items).len() == items.len(),
        forall|i: int|
            0 <= i < items.len() ==> exprs_view(items)[i] == expr_view(items[i]),
    decreases items,
{
    if items.len() > 0 {
        lemma_exprs_view(items.drop_last());
    }
}

pub proof fn lemma_decls_view(ds: Seq<Declaration>)
    ensures
        decls_view(ds).len() == ds.len(),
        forall|i: int| 0 <= i < ds.len() ==> decls_view(ds)[i] == decl_view(ds[i]),
    decreases ds,
{
    if ds.len() > 0 {
        lemma_decls_view(ds.drop_last());
    }
}

impl View for Expression {
    type V = ExpressionV;

    open spec fn view(&self) -> ExpressionV {
        expr_view(*self)
    }
}

impl View for Statement {
    type V = StatementV;

    open spec fn view(&self) -> StatementV {
        stmt_view(*self)
    }
}

impl View for Declaration {
    type V = DeclarationV;

    open spec fn view(&self) -> DeclarationV {
        decl_view(*self)
    }
}

} // verus!
