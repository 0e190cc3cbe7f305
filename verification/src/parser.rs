//! Parser / expectation layer: the four primitive operations over a token
//! sequence through which the grammar `expr := NUMBER (('+' | '-') NUMBER)*`
//! is consumed.  A cursor position into the immutable token sequence stands
//! for the unconsumed suffix; every consuming operation moves it forward by
//! one token, with no backtracking.

use crate::error::CompileError;
use crate::token::Token;
use vstd::prelude::*;

verus! {

/// Reports whether the front token is the end-of-input sentinel.
pub fn at_eof(tokens: &Vec<Token>, pos: usize) -> (b: bool)
    requires
        pos < tokens@.len(),
    ensures
        b == (tokens@[pos as int] == Token::EndOfInput),
{
    match tokens[pos] {
        Token::EndOfInput => true,
        _ => false,
    }
}

/// If the front token is the operator `op`, consumes it and reports `true`;
/// otherwise leaves the cursor where it stands and reports `false`.  Never
/// fails.
pub fn consume(op: char, tokens: &Vec<Token>, pos: usize) -> (r: (bool, usize))
    requires
        pos < tokens@.len(),
    ensures
        r.0 == (tokens@[pos as int] == Token::Operator(op)),
        r.0 ==> r.1 == pos + 1,
        !r.0 ==> r.1 == pos,
{
    proof {
        vstd::std_specs::vec::axiom_spec_len(tokens);
    }
    match tokens[pos] {
        Token::Operator(c) => if c == op {
            (true, pos + 1)
        } else {
            (false, pos)
        },
        _ => (false, pos),
    }
}

/// Consumes the front token when it is the operator `op`; otherwise reports
/// the grammar error that names the missing character.
pub fn expect(op: char, tokens: &Vec<Token>, pos: usize) -> (r: Result<usize, CompileError>)
    requires
        pos < tokens@.len(),
    ensures
        match r {
            Ok(p) => tokens@[pos as int] == Token::Operator(op) && p == pos + 1,
            Err(e) => tokens@[pos as int] != Token::Operator(op) && e == CompileError::ExpectedChar(
                op,
            ),
        },
{
    let (matched, p) = consume(op, tokens, pos);
    if matched {
        Ok(p)
    } else {
        Err(CompileError::ExpectedChar(op))
    }
}

/// Consumes the front token when it is an integer literal and returns its
/// value; otherwise reports the grammar error that a number was expected.
pub fn expect_number(tokens: &Vec<Token>, pos: usize) -> (r: Result<(i32, usize), CompileError>)
    requires
        pos < tokens@.len(),
    ensures
        match r {
            Ok((v, p)) => tokens@[pos as int] == Token::IntegerLiteral(v) && p == pos + 1,
            Err(e) => !(tokens@[pos as int] is IntegerLiteral) && e == CompileError::ExpectedNumber,
        },
{
    proof {
        vstd::std_specs::vec::axiom_spec_len(tokens);
    }
    match tokens[pos] {
        Token::IntegerLiteral(v) => Ok((v, pos + 1)),
        _ => Err(CompileError::ExpectedNumber),
    }
}

} // verus!
