use lang::error::{
    get_line_pos, repeat, CompilerErrorType, Error, ErrorType, LexerErrorType, ParserErrorType,
    VMErrorType,
};

#[test]
fn new_error_carries_position_and_kind() {
    let e = Error::new(7, 3, ErrorType::VMError(VMErrorType::InvalidCast));
    assert_eq!(e.offset, 7);
    assert_eq!(e.width, 3);
    assert_eq!(e.error_type, ErrorType::VMError(VMErrorType::InvalidCast));
    assert!(e.code.is_none());
    assert!(e.file.is_none());
    assert!(e.help.is_none());
    assert!(e.description.is_none());
}

#[test]
fn builders_attach_text() {
    let e = Error::new(0, 1, ErrorType::Unknown)
        .with_code(String::from("a = 5"))
        .with_file(String::from("main.lang"))
        .with_help(String::from("try something else"))
        .with_description(String::from("what went wrong"));
    assert_eq!(e.code.as_deref(), Some("a = 5"));
    assert_eq!(e.file.as_deref(), Some("main.lang"));
    assert_eq!(e.help.as_deref(), Some("try something else"));
    assert_eq!(e.description.as_deref(), Some("what went wrong"));
    assert_eq!(e.error_type, ErrorType::Unknown);
}

#[test]
fn error_kinds_compare_by_structure() {
    assert_eq!(
        ErrorType::LexerError(LexerErrorType::UnknownToken),
        ErrorType::LexerError(LexerErrorType::UnknownToken)
    );
    assert_ne!(
        ErrorType::ParserError(ParserErrorType::UnclosedBracket),
        ErrorType::ParserError(ParserErrorType::UnclosedParenthesis)
    );
    assert_eq!(
        ErrorType::VMError(VMErrorType::StackOverflow { stack_size: 512, index: 512 }),
        ErrorType::VMError(VMErrorType::StackOverflow { stack_size: 512, index: 512 })
    );
    assert_ne!(
        ErrorType::CompilerError(CompilerErrorType::NotImplemented),
        ErrorType::Unknown
    );
}

#[test]
fn repeat_builds_marker_runs() {
    assert_eq!(repeat("-", 4), "----");
    assert_eq!(repeat("ab", 3), "ababab");
    assert_eq!(repeat("^", 0), "");
}

#[test]
fn line_positions_follow_newlines() {
    // position of 'd' in the second line
    let (line_pos, line, indents, line_indents) = get_line_pos("ab\ncd\nef", 4);
    assert_eq!(line_pos, 3);
    assert_eq!(line, 1);
    assert_eq!(indents, 1);
    assert_eq!(line_indents, 2);
}

#[test]
fn line_positions_on_single_line() {
    let (line_pos, line, indents, line_indents) = get_line_pos("hello", 2);
    assert_eq!(line_pos, 0);
    assert_eq!(line, 0);
    assert_eq!(indents, 2);
    assert_eq!(line_indents, 5);
}
