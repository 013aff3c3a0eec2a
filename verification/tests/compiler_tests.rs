use lang::ast::{
    Declaration, DeclarationType, Expression, ExpressionType, Literal, Primary, Statement,
    StatementType, Token,
};
use lang::compiler::{Builder, Compiler};
use lang::error::{CompilerErrorType, ErrorType};
use lang::instruction::{Code, Instruction};

fn expr(expression_type: ExpressionType) -> Expression {
    Expression { offset: 0, width: 1, expression_type }
}

fn int_lit(i: i32) -> Expression {
    expr(ExpressionType::Primary(Primary::Literal(Literal::Int(i))))
}

fn ident(name: &str) -> Expression {
    expr(ExpressionType::Primary(Primary::Identifier(String::from(name))))
}

fn binary(left: Expression, operator: Token, right: Expression) -> Expression {
    expr(ExpressionType::Binary {
        left: Box::new(left),
        right: Box::new(right),
        operator,
        offset: 2,
        width: 1,
    })
}

fn stmt(e: Expression, end: bool) -> Declaration {
    Declaration {
        offset: 0,
        width: 1,
        declaration_type: DeclarationType::Statement(Statement {
            offset: 0,
            width: 1,
            end,
            statement_type: StatementType::Expression(e),
        }),
    }
}

#[test]
fn compiles_int_literal() {
    let ast = vec![stmt(int_lit(5), false)];
    let program = Compiler::new().compile(&ast).unwrap();
    assert_eq!(program.len(), 1);
    assert!(matches!(program[0].code, Code::PushNum(5)));
}

#[test]
fn compiles_binary_expression_postfix() {
    // 5 + 3 compiles to left, right, operator.
    let ast = vec![stmt(binary(int_lit(5), Token::Plus, int_lit(3)), false)];
    let program = Compiler::new().compile(&ast).unwrap();
    assert_eq!(program.len(), 3);
    assert!(matches!(program[0].code, Code::PushNum(5)));
    assert!(matches!(program[1].code, Code::PushNum(3)));
    assert!(matches!(program[2].code, Code::Add));
}

#[test]
fn statement_separator_appends_pop() {
    let ast = vec![stmt(int_lit(1), true)];
    let program = Compiler::new().compile(&ast).unwrap();
    assert_eq!(program.len(), 2);
    assert!(matches!(program[1].code, Code::Pop));
}

#[test]
fn compiles_function_with_inlined_body() {
    // (x) => x + 1
    let body = vec![stmt(binary(ident("x"), Token::Plus, int_lit(1)), false)];
    let function = expr(ExpressionType::Function {
        pars: vec![String::from("x")],
        body,
    });
    let ast = vec![stmt(function, false)];
    let program = Compiler::new().compile(&ast).unwrap();
    // PushFunction, x, 1, Add, Return
    assert_eq!(program.len(), 5);
    match &program[0].code {
        Code::PushFunction { pars, body_len } => {
            assert_eq!(pars.len(), 1);
            assert_eq!(pars[0], "x");
            // the body plus its trailing Return
            assert_eq!(*body_len, 4);
        }
        other => panic!("expected PushFunction, found {:?}", other),
    }
    assert!(matches!(program[4].code, Code::Return));
}

#[test]
fn compiles_call_with_trailing_args_block() {
    // f(4): callee code, CallFunction, argument, count, Return.
    let call = expr(ExpressionType::FunctionCall {
        func: Box::new(ident("f")),
        args: vec![int_lit(4)],
    });
    let ast = vec![stmt(call, false)];
    let program = Compiler::new().compile(&ast).unwrap();
    assert_eq!(program.len(), 5);
    assert!(matches!(program[0].code, Code::PushVar(_)));
    match &program[1].code {
        Code::CallFunction { args_len } => assert_eq!(*args_len, 3),
        other => panic!("expected CallFunction, found {:?}", other),
    }
    assert!(matches!(program[2].code, Code::PushNum(4)));
    assert!(matches!(program[3].code, Code::PushNum(1)));
    assert!(matches!(program[4].code, Code::Return));
}

#[test]
fn unsupported_operator_is_not_implemented() {
    let ast = vec![stmt(binary(int_lit(1), Token::DoubleEquals, int_lit(2)), false)];
    let err = Compiler::new().compile(&ast).unwrap_err();
    assert_eq!(
        err.error_type,
        ErrorType::CompilerError(CompilerErrorType::NotImplemented)
    );
    // blamed on the operator's own span
    assert_eq!(err.offset, 2);
    assert_eq!(err.width, 1);
}

#[test]
fn compiling_twice_yields_identical_programs() {
    let ast = vec![
        stmt(binary(int_lit(5), Token::Plus, int_lit(3)), true),
        stmt(
            expr(ExpressionType::Function {
                pars: vec![String::from("x")],
                body: vec![stmt(ident("x"), false)],
            }),
            false,
        ),
    ];
    let first = Compiler::new().compile(&ast).unwrap();
    let second = Compiler::new().compile(&ast).unwrap();
    assert_eq!(format!("{:?}", first), format!("{:?}", second));
}

#[test]
fn empty_expression_compiles_to_nothing() {
    let ast = vec![stmt(expr(ExpressionType::Empty), false)];
    let program = Compiler::new().compile(&ast).unwrap();
    assert_eq!(program.len(), 0);
}

#[test]
fn list_compiles_elements_then_push_list() {
    let list = expr(ExpressionType::List(vec![int_lit(1), int_lit(2)]));
    let ast = vec![stmt(list, false)];
    let program = Compiler::new().compile(&ast).unwrap();
    assert_eq!(program.len(), 3);
    assert!(matches!(program[2].code, Code::PushList(2)));
}

#[test]
fn builder_accumulates_in_order() {
    let b = Builder::new()
        .push_back(Instruction::new(0, 1, Code::PushNum(1)))
        .append(Builder::from(Instruction::new(1, 1, Code::PushNum(2))))
        .push_back(Instruction::new(2, 1, Code::Add));
    assert_eq!(b.len(), 3);
    let program = b.to_vec();
    assert!(matches!(program[0].code, Code::PushNum(1)));
    assert!(matches!(program[1].code, Code::PushNum(2)));
    assert!(matches!(program[2].code, Code::Add));
}
