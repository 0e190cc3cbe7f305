//! Tokenizer: turns the input text into the token sequence, skipping
//! whitespace and rejecting any other character that cannot start a token.
//!
//! Whitespace here is the ASCII whitespace characters (space, tab, line
//! feed, form feed, carriage return).

use crate::error::CompileError;
use crate::scanner::{
    clamped_i32, digit_run_len, get_prefix_numbers, is_digit, is_digit_char,
    lemma_digit_run_len_props,
};
use crate::token::{new_token, token_seq_wf, Token, TokenKind};
use vstd::prelude::*;

verus! {

/// True of the ASCII whitespace characters, which the tokenizer skips.
pub open spec fn is_space_char(c: char) -> bool {
    c == ' ' || c == '\t' || c == '\n' || c == '\u{000C}' || c == '\r'
}

/// Reports whether `c` is an ASCII whitespace character.
pub fn is_space(c: char) -> (b: bool)
    ensures
        b == is_space_char(c),
{
    c == ' ' || c == '\t' || c == '\n' || c == '\u{000C}' || c == '\r'
}

/// The operator characters (`+` and `-`) of the text, in their
/// left-to-right order.
pub open spec fn op_chars(s: Seq<char>) -> Seq<char>
    decreases s.len(),
{
    if s.len() == 0 {
        Seq::empty()
    } else if s[0] == '+' || s[0] == '-' {
        seq![s[0]] + op_chars(s.skip(1))
    } else {
        op_chars(s.skip(1))
    }
}

/// The token sequence of the text `s`: `None` exactly when some character of
/// `s` can start no token (a lexical error), and otherwise the operator and
/// literal tokens of `s` in order, closed by `EndOfInput`.
pub open spec fn spec_tokenize(s: Seq<char>) -> Option<Seq<Token>>
    decreases s.len(),
{
    if s.len() == 0 {
        Some(seq![Token::EndOfInput])
    } else if is_space_char(s[0]) {
        spec_tokenize(s.skip(1))
    } else if s[0] == '+' || s[0] == '-' {
        match spec_tokenize(s.skip(1)) {
            Some(t) => Some(seq![Token::Operator(s[0])] + t),
            None => None,
        }
    } else if is_digit_char(s[0]) {
        let k = digit_run_len(s) as int;
        if 1 <= k && k <= s.len() {
            match spec_tokenize(s.skip(k)) {
                Some(t) => Some(seq![Token::IntegerLiteral(clamped_i32(s.take(k)))] + t),
                None => None,
            }
        } else {
            // never reached: the digit run of a text that starts with a digit
            // has between 1 and `s.len()` characters
            None
        }
    } else {
        None
    }
}

/// A token sequence the tokenizer accepts is well formed: non-empty, closed
/// by exactly one `EndOfInput` at its end.
pub proof fn lemma_tokenize_wf(s: Seq<char>)
    requires
        spec_tokenize(s) is Some,
    ensures
        token_seq_wf(spec_tokenize(s)->Some_0),
    decreases s.len(),
{
    let toks = spec_tokenize(s)->Some_0;
    if s.len() == 0 {
        assert(toks.last() == Token::EndOfInput);
    } else if is_space_char(s[0]) {
        lemma_tokenize_wf(s.skip(1));
    } else if s[0] == '+' || s[0] == '-' {
        lemma_tokenize_wf(s.skip(1));
        let t = spec_tokenize(s.skip(1))->Some_0;
        assert(toks.last() == t.last());
        assert(forall|i: int| 0 <= i < toks.len() - 1 ==> toks[i] != Token::EndOfInput) by {
            assert(forall|i: int| 1 <= i < toks.len() - 1 ==> toks[i] == t[i - 1]);
        }
    } else if is_digit_char(s[0]) {
        let k = digit_run_len(s) as int;
        assert(1 <= k && k <= s.len());
        lemma_tokenize_wf(s.skip(k));
        let t = spec_tokenize(s.skip(k))->Some_0;
        assert(toks.last() == t.last());
        assert(forall|i: int| 0 <= i < toks.len() - 1 ==> toks[i] != Token::EndOfInput) by {
            assert(forall|i: int| 1 <= i < toks.len() - 1 ==> toks[i] == t[i - 1]);
        }
    }
}

/// Turns the input text into its token sequence, or reports the lexical
/// error if and only if some character of the text can start no token.
pub fn tokenize(s: &str) -> (r: Result<Vec<Token>, CompileError>)
    ensures
        match r {
            Ok(toks) => spec_tokenize(s@) == Some(toks@),
            Err(e) => spec_tokenize(s@) is None && e == CompileError::Lexical,
        },
{
    let n = s.unicode_len();
    let mut toks: Vec<Token> = Vec::new();
    let mut i: usize = 0;
    proof {
        assert(s@.skip(0) =~= s@);
        if spec_tokenize(s@) is Some {
            assert(Seq::<Token>::empty() + spec_tokenize(s@)->Some_0 =~= spec_tokenize(
                s@,
            )->Some_0);
        }
    }
    while i < n
        invariant
            i <= n,
            n == s@.len(),
            spec_tokenize(s@) == (match spec_tokenize(s@.skip(i as int)) {
                Some(t) => Some(toks@ + t),
                None => None::<Seq<Token>>,
            }),
        decreases n - i,
    {
        let ghost rest = s@.skip(i as int);
        proof {
            assert(rest.len() == n - i);
            assert(rest[0] == s@[i as int]);
        }
        let c = s.get_char(i);
        if is_space(c) {
            proof {
                assert(rest.skip(1) =~= s@.skip(i + 1));
            }
            i = i + 1;
        } else if c == '+' || c == '-' {
            proof {
                assert(rest.skip(1) =~= s@.skip(i + 1));
            }
            let ghost old_toks = toks@;
            toks = new_token(TokenKind::TkReserved, toks, 0, c);
            proof {
                if spec_tokenize(s@.skip(i + 1)) is Some {
                    let t = spec_tokenize(s@.skip(i + 1))->Some_0;
                    assert(old_toks + (seq![Token::Operator(c)] + t) =~= toks@ + t);
                }
            }
            i = i + 1;
        } else if is_digit(c) {
            let (val, next) = get_prefix_numbers(s, i);
            let ghost k = digit_run_len(rest) as int;
            proof {
                lemma_digit_run_len_props(rest);
                assert(k >= 1);
                assert(rest.skip(k) =~= s@.skip(i + k));
                assert(rest.take(k) =~= s@.subrange(i as int, i + k));
            }
            let ghost old_toks = toks@;
            toks = new_token(TokenKind::TkNum, toks, val, c);
            proof {
                if spec_tokenize(s@.skip(i + k)) is Some {
                    let t = spec_tokenize(s@.skip(i + k))->Some_0;
                    assert(old_toks + (seq![Token::IntegerLiteral(val)] + t) =~= toks@ + t);
                }
            }
            i = next;
        } else {
            return Err(CompileError::Lexical);
        }
    }
    proof {
        assert(s@.skip(i as int) =~= Seq::<char>::empty());
    }
    let ghost old_toks = toks@;
    let toks = new_token(TokenKind::TkEof, toks, 0, ' ');
    proof {
        assert(old_toks + seq![Token::EndOfInput] =~= toks@);
    }
    Ok(toks)
}

} // verus!
