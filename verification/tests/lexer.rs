use addsubc::codegen::{dec_string, render_instruction, Instr};
use addsubc::error::CompileError;
use addsubc::parser::{at_eof, consume, expect, expect_number};
use addsubc::scanner::get_prefix_numbers;
use addsubc::token::{new_token, Token, TokenKind};
use addsubc::tokenizer::tokenize;

#[test]
fn scanner_reads_digit_prefix() {
    assert_eq!(get_prefix_numbers("123abc", 0), (123, 3));
    assert_eq!(get_prefix_numbers("123abc", 1), (23, 3));
    assert_eq!(get_prefix_numbers("7", 0), (7, 1));
}

#[test]
fn scanner_without_digit_is_a_no_op() {
    assert_eq!(get_prefix_numbers("abc", 0), (0, 0));
    assert_eq!(get_prefix_numbers("", 0), (0, 0));
    assert_eq!(get_prefix_numbers("12+3", 2), (0, 2));
}

#[test]
fn scanner_saturates_past_i32_max() {
    assert_eq!(get_prefix_numbers("2147483648", 0), (i32::MAX, 10));
    assert_eq!(get_prefix_numbers("2147483647", 0), (i32::MAX, 10));
    assert_eq!(get_prefix_numbers("2147483646", 0), (2147483646, 10));
}

#[test]
fn tokenize_structure() {
    let toks = tokenize("1+2").expect("expected tokens");
    assert_eq!(
        toks,
        vec![
            Token::IntegerLiteral(1),
            Token::Operator('+'),
            Token::IntegerLiteral(2),
            Token::EndOfInput,
        ]
    );
}

#[test]
fn tokenize_empty_input_yields_only_sentinel() {
    assert_eq!(tokenize(""), Ok(vec![Token::EndOfInput]));
}

#[test]
fn tokenize_rejects_stray_character() {
    assert_eq!(tokenize("1a"), Err(CompileError::Lexical));
}

#[test]
fn tokenize_twice_yields_equal_sequences() {
    let first = tokenize(" 12 - 3 + 45 ").expect("expected tokens");
    let second = tokenize(" 12 - 3 + 45 ").expect("expected tokens");
    assert_eq!(first, second);
}

#[test]
fn token_builders() {
    assert_eq!(
        Token::new(TokenKind::TkReserved, 0, '+'),
        Token::Operator('+')
    );
    assert_eq!(Token::new(TokenKind::TkNum, 7, 'x'), Token::IntegerLiteral(7));
    assert_eq!(Token::new(TokenKind::TkEof, 0, ' '), Token::EndOfInput);
    let toks = new_token(TokenKind::TkNum, Vec::new(), 7, '7');
    assert_eq!(toks, vec![Token::IntegerLiteral(7)]);
}

#[test]
fn consume_matches_only_the_given_operator() {
    let toks = vec![Token::Operator('+'), Token::EndOfInput];
    assert_eq!(consume('+', &toks, 0), (true, 1));
    assert_eq!(consume('-', &toks, 0), (false, 0));
    assert_eq!(consume('+', &toks, 1), (false, 1));
}

#[test]
fn expect_reports_the_missing_character() {
    let toks = vec![Token::Operator('-'), Token::EndOfInput];
    assert_eq!(expect('-', &toks, 0), Ok(1));
    assert_eq!(expect('+', &toks, 0), Err(CompileError::ExpectedChar('+')));
}

#[test]
fn expect_number_takes_only_literals() {
    let toks = vec![Token::IntegerLiteral(9), Token::Operator('+'), Token::EndOfInput];
    assert_eq!(expect_number(&toks, 0), Ok((9, 1)));
    assert_eq!(expect_number(&toks, 1), Err(CompileError::ExpectedNumber));
}

#[test]
fn at_eof_sees_only_the_sentinel() {
    let toks = vec![Token::IntegerLiteral(9), Token::EndOfInput];
    assert!(!at_eof(&toks, 0));
    assert!(at_eof(&toks, 1));
}

#[test]
fn error_messages() {
    assert_eq!(CompileError::Lexical.message(), "Can't tokenize.");
    assert_eq!(CompileError::ExpectedNumber.message(), "Number is expected.");
    assert_eq!(CompileError::ExpectedChar('-').message(), "- is expected.");
    assert_eq!(CompileError::ExpectedChar('x').message(), "x is expected.");
}

#[test]
fn decimal_rendering() {
    assert_eq!(dec_string(0), "0");
    assert_eq!(dec_string(10), "10");
    assert_eq!(dec_string(2147483647), "2147483647");
    assert_eq!(render_instruction(&Instr::Mov(0)), "    mov rax, 0");
    assert_eq!(render_instruction(&Instr::Add(31)), "    add rax, 31");
    assert_eq!(render_instruction(&Instr::Sub(400)), "    sub rax, 400");
}
