//! The general laws of the pipeline, stated over the spec-level model and
//! proved once for all inputs.

use crate::codegen::{spec_compile_instrs, spec_compile_lines, spec_emit_ops, Instr};
use crate::error::CompileError;
use crate::scanner::{
    clamped_i32, digit_run_len, is_digit_char, lemma_digit_run_len_is, lemma_digit_run_len_props,
};
use crate::token::{token_ops, token_seq_wf, Token};
use crate::tokenizer::{is_space_char, lemma_tokenize_wf, op_chars, spec_tokenize};
use vstd::prelude::*;

verus! {

/// Tokenizing is a function of the text alone: tokenizing the same text
/// twice yields structurally equal token sequences.
pub proof fn lemma_tokenize_idempotent(s: Seq<char>, t1: Seq<Token>, t2: Seq<Token>)
    requires
        spec_tokenize(s) == Some(t1),
        spec_tokenize(s) == Some(t2),
    ensures
        t1 == t2,
{
}

/// A text that is one plain number compiles to the seed instruction carrying
/// exactly that number's value, with no operator instruction after it.
pub proof fn lemma_single_number(s: Seq<char>)
    requires
        s.len() > 0,
        forall|i: int| 0 <= i < s.len() ==> is_digit_char(#[trigger] s[i]),
    ensures
        spec_compile_instrs(s) == Ok::<Seq<Instr>, CompileError>(seq![Instr::Mov(clamped_i32(s))]),
{
    let n = s.len() as int;
    lemma_digit_run_len_is(s, n);
    assert(s.take(n) =~= s);
    assert(s.skip(n) =~= Seq::<char>::empty());
    assert(spec_tokenize(Seq::<char>::empty()) == Some(seq![Token::EndOfInput]));
    assert(spec_tokenize(s) == Some(
        seq![Token::IntegerLiteral(clamped_i32(s))] + seq![Token::EndOfInput],
    ));
    let toks = spec_tokenize(s)->Some_0;
    assert(toks.skip(1) =~= seq![Token::EndOfInput]);
    assert(toks[0] == Token::IntegerLiteral(clamped_i32(s)));
    assert(spec_emit_ops(seq![Token::EndOfInput]) == Ok::<Seq<Instr>, CompileError>(Seq::empty()));
    let instrs = spec_compile_instrs(s)->Ok_0;
    assert(instrs =~= seq![Instr::Mov(clamped_i32(s))]);
}

/// Skipping a run of digits changes no operator character of the text.
proof fn lemma_op_chars_skip_digits(s: Seq<char>, k: int)
    requires
        0 <= k <= s.len(),
        forall|j: int| 0 <= j < k ==> is_digit_char(#[trigger] s[j]),
    ensures
        op_chars(s.skip(k)) == op_chars(s),
    decreases k,
{
    if k > 0 {
        assert(is_digit_char(s[0]));
        assert(s[0] != '+' && s[0] != '-');
        assert(forall|j: int| 0 <= j < k - 1 ==> is_digit_char(#[trigger] s.skip(1)[j]));
        lemma_op_chars_skip_digits(s.skip(1), k - 1);
        assert(s.skip(1).skip(k - 1) =~= s.skip(k));
    } else {
        assert(s.skip(0) =~= s);
    }
}

/// The tokenizer keeps the operator characters of the text: the operator
/// tokens of an accepted text carry exactly its `+` and `-` characters, in
/// the same order.
pub proof fn lemma_tokenize_ops(s: Seq<char>)
    requires
        spec_tokenize(s) is Some,
    ensures
        token_ops(spec_tokenize(s)->Some_0) == op_chars(s),
    decreases s.len(),
{
    let toks = spec_tokenize(s)->Some_0;
    if s.len() == 0 {
        assert(toks.skip(1) =~= Seq::<Token>::empty());
        assert(token_ops(Seq::<Token>::empty()) == Seq::<char>::empty());
        assert(token_ops(toks) == Seq::<char>::empty());
    } else if is_space_char(s[0]) {
        lemma_tokenize_ops(s.skip(1));
    } else if s[0] == '+' || s[0] == '-' {
        lemma_tokenize_ops(s.skip(1));
        let t = spec_tokenize(s.skip(1))->Some_0;
        assert(toks[0] == Token::Operator(s[0]));
        assert(toks.skip(1) =~= t);
        assert(token_ops(toks) == seq![s[0]] + token_ops(t));
        assert(op_chars(s) == seq![s[0]] + op_chars(s.skip(1)));
    } else if is_digit_char(s[0]) {
        let k = digit_run_len(s) as int;
        lemma_tokenize_ops(s.skip(k));
        let t = spec_tokenize(s.skip(k))->Some_0;
        assert(toks[0] == Token::IntegerLiteral(clamped_i32(s.take(k))));
        assert(toks.skip(1) =~= t);
        assert(token_ops(toks) == token_ops(t));
        lemma_digit_run_len_props(s);
        lemma_op_chars_skip_digits(s, k);
    }
}

/// The grammar walk emits instructions in lockstep with the operator
/// tokens: one instruction per operator, `+` to `Add` and `-` to `Sub`, in
/// order.
pub proof fn lemma_emit_ops_shape(toks: Seq<Token>)
    requires
        token_seq_wf(toks),
        spec_emit_ops(toks) is Ok,
    ensures
        spec_emit_ops(toks)->Ok_0.len() == token_ops(toks).len(),
        forall|i: int|
            0 <= i < token_ops(toks).len() ==> (((#[trigger] spec_emit_ops(toks)->Ok_0[i]) is Add)
                <==> token_ops(toks)[i] == '+') && ((spec_emit_ops(toks)->Ok_0[i] is Sub)
                <==> token_ops(toks)[i] == '-'),
    decreases toks.len(),
{
    let instrs = spec_emit_ops(toks)->Ok_0;
    if toks[0] == Token::EndOfInput {
        assert(toks.len() == 1) by {
            if toks.len() > 1 {
                assert(toks[0] != Token::EndOfInput);
            }
        }
        assert(toks.skip(1) =~= Seq::<Token>::empty());
        assert(token_ops(Seq::<Token>::empty()) == Seq::<char>::empty());
        assert(token_ops(toks) == Seq::<char>::empty());
    } else {
        let c = toks[0]->Operator_0;
        let v = toks[1]->IntegerLiteral_0;
        assert(toks[0] == Token::Operator(c) && (c == '+' || c == '-') && toks.len() >= 2 && toks[1]
            == Token::IntegerLiteral(v));
        assert(toks[1] != Token::EndOfInput);
        assert(toks.len() >= 3);
        assert(token_seq_wf(toks.skip(2))) by {
            assert(toks.skip(2).len() == toks.len() - 2 >= 1);
            assert(toks.skip(2).last() == toks.last());
            assert(forall|i: int| 0 <= i < toks.skip(2).len() ==> toks.skip(2)[i] == toks[i + 2]);
        }
        lemma_emit_ops_shape(toks.skip(2));
        let rest = spec_emit_ops(toks.skip(2))->Ok_0;
        assert(toks.skip(1)[0] == toks[1]);
        assert(toks.skip(1).skip(1) =~= toks.skip(2));
        assert(token_ops(toks) == seq![c] + token_ops(toks.skip(1)));
        assert(token_ops(toks.skip(1)) == token_ops(toks.skip(2)));
        assert(forall|i: int| 1 <= i < instrs.len() ==> instrs[i] == rest[i - 1]);
        assert(forall|i: int|
            1 <= i < token_ops(toks).len() ==> token_ops(toks)[i] == token_ops(toks.skip(2))[i
                - 1]);
    }
}

/// For every accepted input, the instruction list is the seed `mov`
/// followed by exactly one `add`/`sub` per operator character of the text:
/// as many operator instructions as operator occurrences, in the same
/// left-to-right order, `+` mapped to `add` and `-` mapped to `sub`.
pub proof fn lemma_operator_instructions(s: Seq<char>)
    requires
        spec_compile_instrs(s) is Ok,
    ensures
        spec_compile_instrs(s)->Ok_0.len() == 1 + op_chars(s).len(),
        spec_compile_instrs(s)->Ok_0[0] is Mov,
        forall|i: int|
            1 <= i < spec_compile_instrs(s)->Ok_0.len() ==> (((
            #[trigger] spec_compile_instrs(s)->Ok_0[i]) is Add) <==> op_chars(s)[i - 1] == '+')
                && ((spec_compile_instrs(s)->Ok_0[i] is Sub) <==> op_chars(s)[i - 1] == '-'),
{
    let toks = spec_tokenize(s)->Some_0;
    let instrs = spec_compile_instrs(s)->Ok_0;
    lemma_tokenize_wf(s);
    lemma_tokenize_ops(s);
    let v = toks[0]->IntegerLiteral_0;
    assert(toks[0] == Token::IntegerLiteral(v));
    assert(toks[0] != Token::EndOfInput);
    assert(toks.len() >= 2);
    assert(token_seq_wf(toks.skip(1))) by {
        assert(toks.skip(1).len() == toks.len() - 1 >= 1);
        assert(toks.skip(1).last() == toks.last());
        assert(forall|i: int| 0 <= i < toks.skip(1).len() ==> toks.skip(1)[i] == toks[i + 1]);
    }
    lemma_emit_ops_shape(toks.skip(1));
    let rest = spec_emit_ops(toks.skip(1))->Ok_0;
    assert(token_ops(toks) == token_ops(toks.skip(1)));
    assert(forall|i: int| 1 <= i < instrs.len() ==> instrs[i] == rest[i - 1]);
}

/// Whitespace insensitivity: inserting a whitespace character anywhere that
/// does not split a digit run leaves the token sequence, and with it the
/// instruction output, unchanged.  (Splitting a digit run turns one number
/// into two, which is a genuine change of the expression.)
pub proof fn lemma_whitespace_insensitive(s: Seq<char>, i: int, c: char)
    requires
        0 <= i <= s.len(),
        is_space_char(c),
        !(0 < i < s.len() && is_digit_char(s[i - 1]) && is_digit_char(s[i])),
    ensures
        spec_tokenize(s.insert(i, c)) == spec_tokenize(s),
    decreases s.len(),
{
    s.insert_ensures(i, c);
    let t = s.insert(i, c);
    if i == 0 {
        assert(t[0] == c);
        assert(t.skip(1) =~= s);
        assert(spec_tokenize(t) == spec_tokenize(t.skip(1)));
    } else {
        assert(t[0] == s[0]);
        if is_space_char(s[0]) || s[0] == '+' || s[0] == '-' {
            s.skip(1).insert_ensures(i - 1, c);
            assert(t.skip(1) =~= s.skip(1).insert(i - 1, c)) by {
                assert forall|j: int| 0 <= j < t.skip(1).len() implies t.skip(1)[j] == s.skip(
                    1,
                ).insert(i - 1, c)[j] by {
                    assert(t.skip(1)[j] == t[j + 1]);
                    if j + 1 < i {
                        assert(t[j + 1] == s[j + 1]);
                        assert(s.skip(1)[j] == s[j + 1]);
                    } else if j + 1 == i {
                        assert(t[i] == c);
                    } else {
                        assert(t[j + 1] == s[j]);
                        assert(s.skip(1)[j - 1] == s[j]);
                    }
                }
            }
            lemma_whitespace_insensitive(s.skip(1), i - 1, c);
        } else if is_digit_char(s[0]) {
            lemma_digit_run_len_props(s);
            let k = digit_run_len(s) as int;
            assert(i >= k) by {
                if i < k {
                    assert(is_digit_char(s[i - 1]));
                    assert(is_digit_char(s[i]));
                }
            }
            assert(forall|j: int| 0 <= j < k ==> is_digit_char(#[trigger] t[j]));
            if k == i {
                assert(t[k] == c);
                assert(!is_digit_char(c));
            } else {
                assert(k < i);
                assert(t[k] == s[k]);
                assert(k < s.len());
                assert(!is_digit_char(t[k]));
            }
            lemma_digit_run_len_is(t, k);
            assert(t.take(k) =~= s.take(k));
            s.skip(k).insert_ensures(i - k, c);
            assert(t.skip(k) =~= s.skip(k).insert(i - k, c)) by {
                assert forall|j: int| 0 <= j < t.skip(k).len() implies t.skip(k)[j] == s.skip(
                    k,
                ).insert(i - k, c)[j] by {
                    assert(t.skip(k)[j] == t[j + k]);
                    if j + k < i {
                        assert(t[j + k] == s[j + k]);
                        assert(s.skip(k)[j] == s[j + k]);
                    } else if j + k == i {
                        assert(t[i] == c);
                    } else {
                        assert(t[j + k] == s[j + k - 1]);
                        assert(s.skip(k)[j - 1] == s[j + k - 1]);
                    }
                }
            }
            lemma_whitespace_insensitive(s.skip(k), i - k, c);
        } else {
            assert(spec_tokenize(t) is None);
        }
    }
}

/// The corollary on the output: texts that differ by whitespace outside
/// digit runs compile to identical assembly lines (or fail alike).
pub proof fn lemma_whitespace_insensitive_lines(s: Seq<char>, i: int, c: char)
    requires
        0 <= i <= s.len(),
        is_space_char(c),
        !(0 < i < s.len() && is_digit_char(s[i - 1]) && is_digit_char(s[i])),
    ensures
        spec_compile_lines(s.insert(i, c)) == spec_compile_lines(s),
{
    lemma_whitespace_insensitive(s, i, c);
}

} // verus!
