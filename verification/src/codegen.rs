//! Code generator: walks the token sequence through the parser primitives
//! and emits one accumulator instruction per literal or operator/literal
//! pair, then renders the instructions as assembly text between the fixed
//! prologue and epilogue.

use crate::error::CompileError;
use crate::parser::{at_eof, consume, expect, expect_number};
use crate::scanner::{
    digit_run_len, is_digit_char, lemma_dec_value_nonneg, lemma_digit_run_len_props,
};
use crate::token::{token_seq_wf, Token};
use crate::tokenizer::{is_space_char, lemma_tokenize_wf, spec_tokenize, tokenize};
use vstd::prelude::*;

verus! {

/// One accumulator-register instruction: seed the accumulator, add to it, or
/// subtract from it.
#[derive(Clone, Copy, PartialEq, Eq, Structural, Debug)]
pub enum Instr {
    /// `mov rax, <value>`: seed the accumulator with the first operand.
    Mov(i32),
    /// `add rax, <value>`.
    Add(i32),
    /// `sub rax, <value>`.
    Sub(i32),
}

/// An instruction the pipeline can emit: its operand is a non-negative
/// literal, as every parsed integer literal is.
pub open spec fn instr_wf(i: Instr) -> bool {
    match i {
        Instr::Mov(v) => v >= 0,
        Instr::Add(v) => v >= 0,
        Instr::Sub(v) => v >= 0,
    }
}

/// The `add`/`sub` instructions for the token suffix that follows the seed
/// literal: one per operator/literal pair, in order, until `EndOfInput`; or
/// the first grammar error met.  On a suffix that lacks its closing sentinel
/// the result is immaterial: every sequence the tokenizer yields is well
/// formed.
pub open spec fn spec_emit_ops(toks: Seq<Token>) -> Result<Seq<Instr>, CompileError>
    decreases toks.len(),
{
    if toks.len() == 0 {
        Err(CompileError::ExpectedNumber)
    } else {
        match toks[0] {
            Token::EndOfInput => Ok(Seq::empty()),
            Token::Operator(c) => if c == '+' || c == '-' {
                if toks.len() >= 2 && (toks[1] is IntegerLiteral) {
                    match spec_emit_ops(toks.skip(2)) {
                        Ok(rest) => Ok(
                            seq![
                                if c == '+' {
                                    Instr::Add(toks[1]->IntegerLiteral_0)
                                } else {
                                    Instr::Sub(toks[1]->IntegerLiteral_0)
                                },
                            ] + rest,
                        ),
                        Err(e) => Err(e),
                    }
                } else {
                    Err(CompileError::ExpectedNumber)
                }
            } else {
                Err(CompileError::ExpectedChar('-'))
            },
            Token::IntegerLiteral(_) => Err(CompileError::ExpectedChar('-')),
        }
    }
}

/// The instructions of a whole token sequence: the grammar requires a seed
/// literal first, then operator/literal pairs until `EndOfInput`.
pub open spec fn spec_program(toks: Seq<Token>) -> Result<Seq<Instr>, CompileError> {
    if toks.len() == 0 {
        Err(CompileError::ExpectedNumber)
    } else {
        match toks[0] {
            Token::IntegerLiteral(v) => match spec_emit_ops(toks.skip(1)) {
                Ok(rest) => Ok(seq![Instr::Mov(v)] + rest),
                Err(e) => Err(e),
            },
            _ => Err(CompileError::ExpectedNumber),
        }
    }
}

/// The instructions of the input text: tokenize, then consume the grammar;
/// the result is the first fatal error, if any stage meets one.
pub open spec fn spec_compile_instrs(s: Seq<char>) -> Result<Seq<Instr>, CompileError> {
    match spec_tokenize(s) {
        None => Err(CompileError::Lexical),
        Some(toks) => spec_program(toks),
    }
}

/// Emits the `add`/`sub` instructions for the tokens from position `pos` on,
/// driving the parser primitives exactly as the grammar
/// `(('+' | '-') NUMBER)*` demands, or reports the first grammar error.
pub fn output_assembly(tokens: &Vec<Token>, pos: usize) -> (r: Result<Vec<Instr>, CompileError>)
    requires
        token_seq_wf(tokens@),
        pos < tokens@.len(),
    ensures
        match r {
            Ok(instrs) => spec_emit_ops(tokens@.skip(pos as int)) == Ok::<
                Seq<Instr>,
                CompileError,
            >(instrs@),
            Err(e) => spec_emit_ops(tokens@.skip(pos as int)) == Err::<Seq<Instr>, CompileError>(e),
        },
{
    let mut out: Vec<Instr> = Vec::new();
    let mut p = pos;
    while !at_eof(tokens, p)
        invariant
            pos <= p < tokens@.len(),
            spec_emit_ops(tokens@.skip(pos as int)) == (match spec_emit_ops(
                tokens@.skip(p as int),
            ) {
                Ok(rest) => Ok::<Seq<Instr>, CompileError>(out@ + rest),
                Err(e) => Err::<Seq<Instr>, CompileError>(e),
            }),
        decreases tokens@.len() - p,
    {
        proof {
            assert(tokens@.skip(p as int)[0] == tokens@[p as int]);
            assert(tokens@[p as int] != Token::EndOfInput);
            assert(tokens@.last() == Token::EndOfInput);
            assert(p + 1 < tokens@.len());
        }
        let ghost old_out = out@;
        let (is_plus, p1) = consume('+', tokens, p);
        if is_plus {
            match expect_number(tokens, p1) {
                Ok((v, p2)) => {
                    out.push(Instr::Add(v));
                    proof {
                        assert(tokens@.skip(p as int)[1] == tokens@[p + 1]);
                        assert(tokens@.skip(p as int).skip(2) =~= tokens@.skip(p + 2));
                        assert(tokens@[p + 1] != Token::EndOfInput);
                        assert(p + 2 < tokens@.len());
                        if spec_emit_ops(tokens@.skip(p + 2)) is Ok {
                            let rest = spec_emit_ops(tokens@.skip(p + 2))->Ok_0;
                            assert(old_out + (seq![Instr::Add(v)] + rest) =~= out@ + rest);
                        }
                    }
                    p = p2;
                },
                Err(e) => {
                    proof {
                        assert(tokens@.skip(p as int)[1] == tokens@[p + 1]);
                    }
                    return Err(e);
                },
            }
        } else {
            match expect('-', tokens, p) {
                Ok(p1m) => {
                    match expect_number(tokens, p1m) {
                        Ok((v, p2)) => {
                            out.push(Instr::Sub(v));
                            proof {
                                assert(tokens@.skip(p as int)[1] == tokens@[p + 1]);
                                assert(tokens@.skip(p as int).skip(2) =~= tokens@.skip(p + 2));
                                assert(tokens@[p + 1] != Token::EndOfInput);
                                assert(p + 2 < tokens@.len());
                                if spec_emit_ops(tokens@.skip(p + 2)) is Ok {
                                    let rest = spec_emit_ops(tokens@.skip(p + 2))->Ok_0;
                                    assert(old_out + (seq![Instr::Sub(v)] + rest) =~= out@ + rest);
                                }
                            }
                            p = p2;
                        },
                        Err(e) => {
                            proof {
                                assert(tokens@.skip(p as int)[1] == tokens@[p + 1]);
                            }
                            return Err(e);
                        },
                    }
                },
                Err(e) => {
                    return Err(e);
                },
            }
        }
    }
    proof {
        assert(tokens@.skip(p as int)[0] == tokens@[p as int]);
        assert(out@ + Seq::<Instr>::empty() =~= out@);
    }
    Ok(out)
}

/// Compiles the input text to its instruction list: the seed `mov` for the
/// first literal, then one `add`/`sub` per operator/literal pair; or the
/// first fatal error of the pipeline.
pub fn compile(source: &str) -> (r: Result<Vec<Instr>, CompileError>)
    ensures
        match r {
            Ok(instrs) => spec_compile_instrs(source@) == Ok::<Seq<Instr>, CompileError>(instrs@),
            Err(e) => spec_compile_instrs(source@) == Err::<Seq<Instr>, CompileError>(e),
        },
{
    let toks = match tokenize(source) {
        Ok(t) => t,
        Err(e) => {
            return Err(e);
        },
    };
    proof {
        lemma_tokenize_wf(source@);
    }
    let (v, p1) = match expect_number(&toks, 0) {
        Ok(x) => x,
        Err(e) => {
            return Err(e);
        },
    };
    proof {
        assert(toks@[0] != Token::EndOfInput);
        assert(toks@.last() == Token::EndOfInput);
        assert(1 < toks@.len());
    }
    let mut rest = match output_assembly(&toks, p1) {
        Ok(o) => o,
        Err(e) => {
            return Err(e);
        },
    };
    let mut instrs: Vec<Instr> = Vec::new();
    instrs.push(Instr::Mov(v));
    instrs.append(&mut rest);
    proof {
        assert(seq![Instr::Mov(v)] + spec_emit_ops(toks@.skip(1))->Ok_0 =~= instrs@);
    }
    Ok(instrs)
}

/// The character of one decimal digit value.
pub open spec fn digit_char(d: int) -> char {
    if d == 0 {
        '0'
    } else if d == 1 {
        '1'
    } else if d == 2 {
        '2'
    } else if d == 3 {
        '3'
    } else if d == 4 {
        '4'
    } else if d == 5 {
        '5'
    } else if d == 6 {
        '6'
    } else if d == 7 {
        '7'
    } else if d == 8 {
        '8'
    } else {
        '9'
    }
}

/// The decimal digit string of a non-negative number, most significant
/// digit first and without leading zeros (a single `0` for zero).
pub open spec fn dec_digits(n: int) -> Seq<char>
    recommends
        n >= 0,
    decreases n,
{
    if n <= 9 {
        seq![digit_char(n)]
    } else {
        dec_digits(n / 10).push(digit_char(n % 10))
    }
}

/// The assembly text of one instruction: four spaces of indentation, the
/// mnemonic, the accumulator register, and the decimal operand.
pub open spec fn spec_render_instr(i: Instr) -> Seq<char> {
    match i {
        Instr::Mov(v) => "    mov rax, "@ + dec_digits(v as int),
        Instr::Add(v) => "    add rax, "@ + dec_digits(v as int),
        Instr::Sub(v) => "    sub rax, "@ + dec_digits(v as int),
    }
}

/// The full assembly listing of an instruction list: the fixed prologue
/// (dialect directive, global declaration, entry label), one line per
/// instruction, and the fixed `ret` epilogue.
pub open spec fn spec_render_lines(instrs: Seq<Instr>) -> Seq<Seq<char>> {
    seq![".intel_syntax noprefix"@, ".global main"@, "main:"@] + instrs.map_values(
        |i: Instr| spec_render_instr(i),
    ) + seq!["    ret"@]
}

/// The assembly lines of the input text, or the first fatal error of the
/// pipeline.
pub open spec fn spec_compile_lines(s: Seq<char>) -> Result<Seq<Seq<char>>, CompileError> {
    match spec_compile_instrs(s) {
        Ok(instrs) => Ok(spec_render_lines(instrs)),
        Err(e) => Err(e),
    }
}

/// The one-character string of a decimal digit value.
fn digit_str(d: i32) -> (r: &'static str)
    requires
        0 <= d <= 9,
    ensures
        r@ == seq![digit_char(d as int)],
{
    let r: &'static str = if d == 0 {
        "0"
    } else if d == 1 {
        "1"
    } else if d == 2 {
        "2"
    } else if d == 3 {
        "3"
    } else if d == 4 {
        "4"
    } else if d == 5 {
        "5"
    } else if d == 6 {
        "6"
    } else if d == 7 {
        "7"
    } else if d == 8 {
        "8"
    } else {
        "9"
    };
    proof {
        reveal_strlit("0");
        reveal_strlit("1");
        reveal_strlit("2");
        reveal_strlit("3");
        reveal_strlit("4");
        reveal_strlit("5");
        reveal_strlit("6");
        reveal_strlit("7");
        reveal_strlit("8");
        reveal_strlit("9");
        assert(r@ =~= seq![digit_char(d as int)]);
    }
    r
}

/// The decimal string of a non-negative number.
pub fn dec_string(n: i32) -> (r: String)
    requires
        n >= 0,
    ensures
        r@ == dec_digits(n as int),
    decreases n,
{
    if n <= 9 {
        digit_str(n).to_owned()
    } else {
        let q = n / 10;
        let d = n % 10;
        let mut s = dec_string(q);
        s.append(digit_str(d));
        proof {
            assert(dec_digits((n / 10) as int).push(digit_char((n % 10) as int)) =~= s@);
        }
        s
    }
}

/// Renders one instruction as its assembly line.
pub fn render_instruction(i: &Instr) -> (r: String)
    requires
        instr_wf(*i),
    ensures
        r@ == spec_render_instr(*i),
{
    match i {
        Instr::Mov(v) => {
            let mut s = "    mov rax, ".to_owned();
            s.append(dec_string(*v).as_str());
            s
        },
        Instr::Add(v) => {
            let mut s = "    add rax, ".to_owned();
            s.append(dec_string(*v).as_str());
            s
        },
        Instr::Sub(v) => {
            let mut s = "    sub rax, ".to_owned();
            s.append(dec_string(*v).as_str());
            s
        },
    }
}

/// Renders the whole instruction list as the assembly listing, prologue and
/// epilogue included.
pub fn render_program(instrs: &Vec<Instr>) -> (r: Vec<String>)
    requires
        forall|i: int| 0 <= i < instrs@.len() ==> instr_wf(#[trigger] instrs@[i]),
    ensures
        r.deep_view() == spec_render_lines(instrs@),
{
    let ghost rendered = instrs@.map_values(|i: Instr| spec_render_instr(i));
    let mut lines: Vec<String> = Vec::new();
    lines.push(".intel_syntax noprefix".to_owned());
    lines.push(".global main".to_owned());
    lines.push("main:".to_owned());
    let ghost prologue = lines.deep_view();
    proof {
        assert(prologue =~= seq![".intel_syntax noprefix"@, ".global main"@, "main:"@]);
    }
    let n = instrs.len();
    let mut idx: usize = 0;
    while idx < n
        invariant
            idx <= n,
            n == instrs@.len(),
            forall|i: int| 0 <= i < instrs@.len() ==> instr_wf(#[trigger] instrs@[i]),
            lines.deep_view() == prologue + rendered.take(idx as int),
        decreases n - idx,
    {
        let ghost before = lines.deep_view();
        lines.push(render_instruction(&instrs[idx]));
        proof {
            assert(lines.deep_view() =~= before.push(spec_render_instr(instrs@[idx as int])));
            assert(prologue + rendered.take(idx + 1) =~= (prologue + rendered.take(idx as int)).push(
                rendered[idx as int],
            ));
        }
        idx = idx + 1;
    }
    let ghost before = lines.deep_view();
    lines.push("    ret".to_owned());
    proof {
        assert(rendered.take(n as int) =~= rendered);
        assert(lines.deep_view() =~= before.push("    ret"@));
        assert(lines.deep_view() =~= spec_render_lines(instrs@));
    }
    lines
}

/// Every literal the tokenizer parses is non-negative.
pub proof fn lemma_tokenize_vals(s: Seq<char>)
    requires
        spec_tokenize(s) is Some,
    ensures
        forall|i: int|
            0 <= i < spec_tokenize(s)->Some_0.len() && (#[trigger] spec_tokenize(s)->Some_0[i])
                is IntegerLiteral ==> spec_tokenize(s)->Some_0[i]->IntegerLiteral_0 >= 0,
    decreases s.len(),
{
    let toks = spec_tokenize(s)->Some_0;
    if s.len() == 0 {
    } else if is_space_char(s[0]) {
        lemma_tokenize_vals(s.skip(1));
    } else if s[0] == '+' || s[0] == '-' {
        lemma_tokenize_vals(s.skip(1));
        let t = spec_tokenize(s.skip(1))->Some_0;
        assert(forall|i: int| 1 <= i < toks.len() ==> toks[i] == t[i - 1]);
    } else if is_digit_char(s[0]) {
        let k = digit_run_len(s) as int;
        lemma_tokenize_vals(s.skip(k));
        let t = spec_tokenize(s.skip(k))->Some_0;
        assert(forall|i: int| 1 <= i < toks.len() ==> toks[i] == t[i - 1]);
        lemma_digit_run_len_props(s);
        assert(forall|j: int| 0 <= j < s.take(k).len() ==> is_digit_char(#[trigger] s.take(k)[j]));
        lemma_dec_value_nonneg(s.take(k));
    }
}

/// Every instruction the grammar walk emits takes its operand from a
/// literal token, so it stays non-negative when the literals are.
pub proof fn lemma_emit_vals(toks: Seq<Token>)
    requires
        spec_emit_ops(toks) is Ok,
        forall|i: int|
            0 <= i < toks.len() && (#[trigger] toks[i]) is IntegerLiteral ==> toks[i]->IntegerLiteral_0
                >= 0,
    ensures
        forall|i: int|
            0 <= i < spec_emit_ops(toks)->Ok_0.len() ==> instr_wf(
                #[trigger] spec_emit_ops(toks)->Ok_0[i],
            ),
    decreases toks.len(),
{
    let instrs = spec_emit_ops(toks)->Ok_0;
    if toks.len() == 0 {
    } else {
        match toks[0] {
            Token::EndOfInput => {},
            Token::Operator(c) => {
                if (c == '+' || c == '-') && toks.len() >= 2 && (toks[1] is IntegerLiteral) {
                    assert(forall|i: int|
                        0 <= i < toks.skip(2).len() && (#[trigger] toks.skip(2)[i])
                            is IntegerLiteral ==> toks.skip(2)[i]->IntegerLiteral_0 >= 0);
                    lemma_emit_vals(toks.skip(2));
                    let rest = spec_emit_ops(toks.skip(2))->Ok_0;
                    assert(forall|i: int| 1 <= i < instrs.len() ==> instrs[i] == rest[i - 1]);
                }
            },
            Token::IntegerLiteral(_) => {},
        }
    }
}

/// Every instruction a successful compilation emits is well formed.
pub proof fn lemma_compile_instrs_wf(s: Seq<char>)
    requires
        spec_compile_instrs(s) is Ok,
    ensures
        forall|i: int|
            0 <= i < spec_compile_instrs(s)->Ok_0.len() ==> instr_wf(
                #[trigger] spec_compile_instrs(s)->Ok_0[i],
            ),
{
    let toks = spec_tokenize(s)->Some_0;
    let instrs = spec_compile_instrs(s)->Ok_0;
    lemma_tokenize_vals(s);
    assert(forall|i: int|
        0 <= i < toks.skip(1).len() && (#[trigger] toks.skip(1)[i]) is IntegerLiteral ==> toks.skip(
            1,
        )[i]->IntegerLiteral_0 >= 0);
    lemma_emit_vals(toks.skip(1));
    let rest = spec_emit_ops(toks.skip(1))->Ok_0;
    assert(forall|i: int| 1 <= i < instrs.len() ==> instrs[i] == rest[i - 1]);
}

/// Compiles the input text all the way to its assembly lines: the fixed
/// prologue, the seed `mov`, one `add`/`sub` line per operator/literal pair,
/// and the `ret` epilogue; or the first fatal error of the pipeline.
pub fn generate(source: &str) -> (r: Result<Vec<String>, CompileError>)
    ensures
        match r {
            Ok(lines) => spec_compile_lines(source@) == Ok::<Seq<Seq<char>>, CompileError>(
                lines.deep_view(),
            ),
            Err(e) => spec_compile_lines(source@) == Err::<Seq<Seq<char>>, CompileError>(e),
        },
{
    let instrs = match compile(source) {
        Ok(i) => i,
        Err(e) => {
            return Err(e);
        },
    };
    proof {
        lemma_compile_instrs_wf(source@);
    }
    Ok(render_program(&instrs))
}

} // verus!
