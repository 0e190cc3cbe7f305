//! The fatal conditions of the pipeline, as values: the caller, not the
//! library, decides to stop the process.

use vstd::prelude::*;

verus! {

/// A fatal condition met while compiling an expression.  Every variant is
/// unrecoverable: no usable output exists once one is reported.
#[derive(Clone, Copy, PartialEq, Eq, Structural, Debug)]
pub enum CompileError {
    /// Lexical error: a character that can start neither whitespace, nor an
    /// operator, nor a digit run.
    Lexical,
    /// Grammar error: the named operator character was required at the
    /// current token and is not there.
    ExpectedChar(char),
    /// Grammar error: a number token was required at the current token and
    /// is not there.
    ExpectedNumber,
}

/// The one-line diagnostic text of each error.
pub open spec fn spec_message(e: CompileError) -> Seq<char> {
    match e {
        CompileError::Lexical => "Can't tokenize."@,
        CompileError::ExpectedChar(c) => seq![c] + " is expected."@,
        CompileError::ExpectedNumber => "Number is expected."@,
    }
}

/// Relies on `ToString` for `char`: the resulting string holds exactly the
/// character it was made from.
#[verifier::external_body]
fn char_to_string(c: char) -> (r: String)
    ensures
        r@ == seq![c],
{
    c.to_string()
}

impl CompileError {
    /// The one-line diagnostic for this error, ready for an error stream.
    pub fn message(&self) -> (r: String)
        ensures
            r@ == spec_message(*self),
    {
        match self {
            CompileError::Lexical => "Can't tokenize.".to_owned(),
            CompileError::ExpectedChar(c) => char_to_string(*c).concat(" is expected."),
            CompileError::ExpectedNumber => "Number is expected.".to_owned(),
        }
    }
}

} // verus!
