use addsubc::codegen::{compile, generate, Instr};
use addsubc::error::CompileError;

fn lines_of(src: &str) -> Vec<String> {
    generate(src).expect("expected successful compilation")
}

#[test]
fn single_number_output() {
    let lines = lines_of("42");
    assert_eq!(lines.len(), 5);
    assert_eq!(lines[0], ".intel_syntax noprefix");
    assert_eq!(lines[1], ".global main");
    assert_eq!(lines[2], "main:");
    assert_eq!(lines[3], "    mov rax, 42");
    assert_eq!(lines[4], "    ret");
}

#[test]
fn add_and_sub_chain() {
    let lines = lines_of("5+3-2");
    assert_eq!(
        lines,
        vec![
            ".intel_syntax noprefix".to_string(),
            ".global main".to_string(),
            "main:".to_string(),
            "    mov rax, 5".to_string(),
            "    add rax, 3".to_string(),
            "    sub rax, 2".to_string(),
            "    ret".to_string(),
        ]
    );
}

#[test]
fn sub_then_add_with_spaces() {
    let lines = lines_of("10 - 20 + 5");
    assert_eq!(
        lines,
        vec![
            ".intel_syntax noprefix".to_string(),
            ".global main".to_string(),
            "main:".to_string(),
            "    mov rax, 10".to_string(),
            "    sub rax, 20".to_string(),
            "    add rax, 5".to_string(),
            "    ret".to_string(),
        ]
    );
}

#[test]
fn operator_count_matches_input() {
    let instrs = compile("1+2+3-4+5").expect("expected successful compilation");
    assert_eq!(instrs.len(), 5);
    assert_eq!(
        instrs,
        vec![
            Instr::Mov(1),
            Instr::Add(2),
            Instr::Add(3),
            Instr::Sub(4),
            Instr::Add(5),
        ]
    );
}

#[test]
fn whitespace_insensitivity() {
    let a = lines_of("1 + 2");
    let b = lines_of("1+2");
    let c = lines_of(" 1  +  2 ");
    assert_eq!(a, b);
    assert_eq!(a, c);
    let d = lines_of("1\t+\n2");
    assert_eq!(a, d);
}

#[test]
fn leading_zeros_are_one_number() {
    let lines = lines_of("007");
    assert_eq!(lines[3], "    mov rax, 7");
    assert_eq!(lines[4], "    ret");
}

#[test]
fn empty_input_is_grammar_error() {
    assert_eq!(generate(""), Err(CompileError::ExpectedNumber));
}

#[test]
fn whitespace_only_input_is_grammar_error() {
    assert_eq!(generate("   "), Err(CompileError::ExpectedNumber));
}

#[test]
fn trailing_operator_is_grammar_error() {
    assert_eq!(generate("1+"), Err(CompileError::ExpectedNumber));
}

#[test]
fn leading_operator_is_grammar_error() {
    assert_eq!(generate("+5"), Err(CompileError::ExpectedNumber));
}

#[test]
fn two_numbers_without_operator_is_grammar_error() {
    assert_eq!(generate("1 2"), Err(CompileError::ExpectedChar('-')));
}

#[test]
fn ampersand_is_lexical_error() {
    assert_eq!(generate("1 & 2"), Err(CompileError::Lexical));
}

#[test]
fn star_is_lexical_error() {
    assert_eq!(generate("5 * 2"), Err(CompileError::Lexical));
}

#[test]
fn overlong_literal_saturates() {
    let lines = lines_of("99999999999");
    assert_eq!(lines[3], "    mov rax, 2147483647");
}

#[test]
fn literal_at_i32_max_is_exact() {
    let lines = lines_of("2147483647");
    assert_eq!(lines[3], "    mov rax, 2147483647");
}

#[test]
fn literal_past_i32_max_saturates() {
    let lines = lines_of("2147483648");
    assert_eq!(lines[3], "    mov rax, 2147483647");
}
