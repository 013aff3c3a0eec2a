use lang::ast::{
    Declaration, DeclarationType, Expression, ExpressionType, Literal, Primary, Statement,
    StatementType, Token,
};
use lang::compiler::Compiler;
use lang::error::{ErrorType, VMErrorType};
use lang::instruction::{Code, Instruction, Program};
use lang::vm::VM;

fn expr(expression_type: ExpressionType) -> Expression {
    Expression { offset: 0, width: 1, expression_type }
}

fn int_lit(i: i32) -> Expression {
    expr(ExpressionType::Primary(Primary::Literal(Literal::Int(i))))
}

fn float_lit(f: f64) -> Expression {
    expr(ExpressionType::Primary(Primary::Literal(Literal::Float(f.to_bits()))))
}

fn string_lit(s: &str) -> Expression {
    expr(ExpressionType::Primary(Primary::Literal(Literal::String(String::from(s)))))
}

fn ident(name: &str) -> Expression {
    expr(ExpressionType::Primary(Primary::Identifier(String::from(name))))
}

fn binary(left: Expression, operator: Token, right: Expression) -> Expression {
    expr(ExpressionType::Binary {
        left: Box::new(left),
        right: Box::new(right),
        operator,
        offset: 2,
        width: 1,
    })
}

fn stmt(e: Expression, end: bool) -> Declaration {
    Declaration {
        offset: 0,
        width: 1,
        declaration_type: DeclarationType::Statement(Statement {
            offset: 0,
            width: 1,
            end,
            statement_type: StatementType::Expression(e),
        }),
    }
}

fn run_one(e: Expression) -> Result<String, lang::error::Error> {
    let ast = vec![stmt(e, false)];
    let program = Compiler::new().compile(&ast).unwrap();
    VM::new().exec(&program, 0)
}

#[test]
fn evaluates_integer_arithmetic() {
    // 5 + 5 - 6 / 2, shaped by the grammar's precedence
    let e = binary(
        binary(int_lit(5), Token::Plus, int_lit(5)),
        Token::Minus,
        binary(int_lit(6), Token::FSlash, int_lit(2)),
    );
    assert_eq!(run_one(e).unwrap(), "Int(7)");
}

#[test]
fn integer_division_truncates() {
    assert_eq!(run_one(binary(int_lit(2), Token::FSlash, int_lit(1))).unwrap(), "Int(2)");
    assert_eq!(run_one(binary(int_lit(7), Token::FSlash, int_lit(2))).unwrap(), "Int(3)");
    assert_eq!(
        run_one(binary(int_lit(-7), Token::FSlash, int_lit(2))).unwrap(),
        "Int(-3)"
    );
}

#[test]
fn multiplication_works() {
    assert_eq!(run_one(binary(int_lit(6), Token::Asterix, int_lit(7))).unwrap(), "Int(42)");
}

#[test]
fn mixed_int_float_promotes_to_float() {
    assert_eq!(
        run_one(binary(int_lit(1), Token::Plus, float_lit(2.5))).unwrap(),
        "Float(3.5)"
    );
    assert_eq!(
        run_one(binary(float_lit(2.5), Token::Plus, int_lit(1))).unwrap(),
        "Float(3.5)"
    );
}

#[test]
fn float_arithmetic_stays_float() {
    assert_eq!(
        run_one(binary(float_lit(2.5), Token::Minus, float_lit(1.25))).unwrap(),
        "Float(1.25)"
    );
    assert_eq!(
        run_one(binary(float_lit(1.0), Token::FSlash, float_lit(2.0))).unwrap(),
        "Float(0.5)"
    );
}

#[test]
fn float_multiplication_works() {
    assert_eq!(
        run_one(binary(float_lit(1.5), Token::Asterix, float_lit(2.5))).unwrap(),
        "Float(3.75)"
    );
}

#[test]
fn binary_ops_on_strings_fail() {
    for op in [Token::Plus, Token::Minus, Token::Asterix, Token::FSlash] {
        let err = run_one(binary(string_lit("left"), op, string_lit("right"))).unwrap_err();
        assert_eq!(
            err.error_type,
            ErrorType::VMError(VMErrorType::OperationNotSupported)
        );
    }
}

#[test]
fn division_by_zero_fails() {
    let err = run_one(binary(int_lit(1), Token::FSlash, int_lit(0))).unwrap_err();
    assert_eq!(
        err.error_type,
        ErrorType::VMError(VMErrorType::OperationNotSupported)
    );
}

#[test]
fn assignment_round_trip() {
    // a = 5; a
    let ast = vec![
        stmt(binary(ident("a"), Token::Equals, int_lit(5)), true),
        stmt(ident("a"), false),
    ];
    let program = Compiler::new().compile(&ast).unwrap();
    assert_eq!(VM::new().exec(&program, 0).unwrap(), "Int(5)");
}

#[test]
fn assignment_result_resolves_to_the_value() {
    // The assignment leaves the variable reference on the stack, and
    // the final rendering resolves it through the scope.
    let e = binary(ident("a"), Token::Equals, int_lit(5));
    assert_eq!(run_one(e).unwrap(), "Int(5)");
}

#[test]
fn assignment_to_non_variable_fails() {
    let e = binary(int_lit(5), Token::Equals, int_lit(3));
    let err = run_one(e).unwrap_err();
    assert_eq!(
        err.error_type,
        ErrorType::VMError(VMErrorType::AssignToNonVariable)
    );
}

#[test]
fn unbound_variable_reads_as_null() {
    assert_eq!(run_one(ident("missing")).unwrap(), "Null");
}

#[test]
fn null_literal_renders_as_null() {
    let e = expr(ExpressionType::Primary(Primary::Literal(Literal::Null)));
    assert_eq!(run_one(e).unwrap(), "Null");
}

#[test]
fn empty_program_renders_null() {
    let program: Program = Vec::new();
    assert_eq!(VM::new().exec(&program, 0).unwrap(), "Null");
}

#[test]
fn state_persists_across_runs() {
    // First input binds a; the next input, appended to the same
    // program, still sees it.
    let first = vec![stmt(binary(ident("a"), Token::Equals, int_lit(41)), true)];
    let mut program = Compiler::new().compile(&first).unwrap();
    let offset = program.len();

    let mut vm = VM::new();
    vm.exec(&program, 0).unwrap();

    let second = vec![stmt(binary(ident("a"), Token::Plus, int_lit(1)), false)];
    let mut more = Compiler::new().compile(&second).unwrap();
    program.append(&mut more);

    assert_eq!(vm.exec(&program, offset).unwrap(), "Int(42)");
}

#[test]
fn reachable_values_survive_collection() {
    let first = vec![stmt(binary(ident("a"), Token::Equals, int_lit(5)), true)];
    let mut program = Compiler::new().compile(&first).unwrap();
    let offset = program.len();

    let mut vm = VM::new();
    vm.exec(&program, 0).unwrap();
    vm.garbage();

    let second = vec![stmt(ident("a"), false)];
    let mut more = Compiler::new().compile(&second).unwrap();
    program.append(&mut more);

    assert_eq!(vm.exec(&program, offset).unwrap(), "Int(5)");
}

#[test]
fn function_call_returns_body_value() {
    // ((x) => x + 1)(4)
    let function = expr(ExpressionType::Function {
        pars: vec![String::from("x")],
        body: vec![stmt(binary(ident("x"), Token::Plus, int_lit(1)), false)],
    });
    let call = expr(ExpressionType::FunctionCall {
        func: Box::new(function),
        args: vec![int_lit(4)],
    });
    assert_eq!(run_one(call).unwrap(), "Int(5)");
}

#[test]
fn wrong_argument_count_is_rejected() {
    let function = expr(ExpressionType::Function {
        pars: vec![String::from("x")],
        body: vec![stmt(binary(ident("x"), Token::Plus, int_lit(1)), false)],
    });
    let call = expr(ExpressionType::FunctionCall {
        func: Box::new(function),
        args: vec![int_lit(4), int_lit(5)],
    });
    let err = run_one(call).unwrap_err();
    assert_eq!(
        err.error_type,
        ErrorType::VMError(VMErrorType::MismatchedArgumentCount)
    );
}

#[test]
fn parameters_bind_in_declaration_order() {
    // ((x, y) => x - y)(10, 4)
    let function = expr(ExpressionType::Function {
        pars: vec![String::from("x"), String::from("y")],
        body: vec![stmt(binary(ident("x"), Token::Minus, ident("y")), false)],
    });
    let call = expr(ExpressionType::FunctionCall {
        func: Box::new(function),
        args: vec![int_lit(10), int_lit(4)],
    });
    assert_eq!(run_one(call).unwrap(), "Int(6)");
}

#[test]
fn assignment_in_function_shadows_outer_binding() {
    // a = 1; ((x) => a = x)(9); a
    let bind_outer = stmt(binary(ident("a"), Token::Equals, int_lit(1)), true);
    let function = expr(ExpressionType::Function {
        pars: vec![String::from("x")],
        body: vec![stmt(binary(ident("a"), Token::Equals, ident("x")), false)],
    });
    let call = stmt(
        expr(ExpressionType::FunctionCall { func: Box::new(function), args: vec![int_lit(9)] }),
        true,
    );
    let read_outer = stmt(ident("a"), false);
    let ast = vec![bind_outer, call, read_outer];
    let program = Compiler::new().compile(&ast).unwrap();
    // The child scope's binding dies with the call; the outer one is
    // shadowed, never mutated.
    assert_eq!(VM::new().exec(&program, 0).unwrap(), "Int(1)");
}

#[test]
fn calling_a_non_function_fails() {
    let call = expr(ExpressionType::FunctionCall {
        func: Box::new(int_lit(3)),
        args: vec![],
    });
    let err = run_one(call).unwrap_err();
    assert_eq!(err.error_type, ErrorType::VMError(VMErrorType::InvalidCast));
}

#[test]
fn pushing_past_the_capacity_overflows() {
    // 512 bare pushes: the 512th one cannot fit any more.
    let mut program: Program = Vec::new();
    for i in 0..512 {
        program.push(Instruction::new(i, 1, Code::PushNum(1)));
    }
    let err = VM::new().exec(&program, 0).unwrap_err();
    match err.error_type {
        ErrorType::VMError(VMErrorType::StackOverflow { stack_size, index }) => {
            assert_eq!(stack_size, 512);
            assert_eq!(index, 512);
        }
        other => panic!("expected StackOverflow, found {:?}", other),
    }
    // the failing instruction is the last one
    assert_eq!(err.offset, 511);
}

#[test]
fn stack_overflow_does_not_corrupt_prior_contents() {
    // Fill the stack to one below the limit, fail once, then confirm
    // the machine still works and the top value is intact.
    let mut program: Program = Vec::new();
    for i in 0..512 {
        program.push(Instruction::new(i, 1, Code::PushNum(i as i32)));
    }
    let mut vm = VM::new();
    assert!(vm.exec(&program, 0).is_err());
    // The failed run left 511 values; a fresh run from the end of the
    // program pops the surviving top.
    assert_eq!(vm.exec(&program, 512).unwrap(), "Int(510)");
}

#[test]
fn list_opcode_is_not_implemented() {
    let list = expr(ExpressionType::List(vec![int_lit(1)]));
    let err = run_one(list).unwrap_err();
    assert_eq!(err.error_type, ErrorType::VMError(VMErrorType::NotImplemented));
}
