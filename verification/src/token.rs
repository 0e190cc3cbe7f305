//! Tokens: the lexical units of an expression, and the shape of a finished
//! token sequence.

use vstd::prelude::*;

verus! {

/// The kind of a lexical token, as the tokenizer classifies input characters.
#[derive(Clone, Copy, PartialEq, Eq, Structural, Debug)]
pub enum TokenKind {
    /// A reserved (operator) character.
    TkReserved,
    /// A decimal integer literal.
    TkNum,
    /// The end-of-input sentinel.
    TkEof,
}

/// A lexical token.  `Operator` carries the literal source character,
/// `IntegerLiteral` the parsed 32-bit value, and `EndOfInput` closes every
/// token sequence.
#[derive(Clone, Copy, PartialEq, Eq, Structural, Debug)]
pub enum Token {
    /// An operator token carrying its source character.
    Operator(char),
    /// An integer literal token carrying its parsed value.
    IntegerLiteral(i32),
    /// The end-of-input sentinel.
    EndOfInput,
}

/// The token that `kind`, `val` and `ch` describe: operators keep the source
/// character, literals keep the value, and the sentinel carries nothing.
pub open spec fn spec_token(kind: TokenKind, val: i32, ch: char) -> Token {
    match kind {
        TokenKind::TkReserved => Token::Operator(ch),
        TokenKind::TkNum => Token::IntegerLiteral(val),
        TokenKind::TkEof => Token::EndOfInput,
    }
}

impl Token {
    /// Builds the token of the given kind from its parts; the parts a kind
    /// does not use are dropped.
    pub fn new(kind: TokenKind, val: i32, ch: char) -> (t: Token)
        ensures
            t == spec_token(kind, val, ch),
    {
        match kind {
            TokenKind::TkReserved => Token::Operator(ch),
            TokenKind::TkNum => Token::IntegerLiteral(val),
            TokenKind::TkEof => Token::EndOfInput,
        }
    }
}

/// A well-formed token sequence: non-empty, closed by exactly one
/// `EndOfInput`, which stands at the end and nowhere else.
pub open spec fn token_seq_wf(toks: Seq<Token>) -> bool {
    &&& toks.len() > 0
    &&& toks.last() == Token::EndOfInput
    &&& forall|i: int| 0 <= i < toks.len() - 1 ==> toks[i] != Token::EndOfInput
}

/// The characters of the operator tokens of a sequence, in their order.
pub open spec fn token_ops(toks: Seq<Token>) -> Seq<char>
    decreases toks.len(),
{
    if toks.len() == 0 {
        Seq::empty()
    } else {
        match toks[0] {
            Token::Operator(c) => seq![c] + token_ops(toks.skip(1)),
            _ => token_ops(toks.skip(1)),
        }
    }
}

/// Appends the token built from `kind`, `val` and `ch` to the back of the
/// sequence under construction.
pub fn new_token(kind: TokenKind, cur: Vec<Token>, val: i32, ch: char) -> (r: Vec<Token>)
    ensures
        r@ == cur@.push(spec_token(kind, val, ch)),
{
    let mut cur = cur;
    cur.push(Token::new(kind, val, ch));
    cur
}

} // verus!
