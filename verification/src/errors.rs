//! The per-match failures the rewrite engine can report.  Both are
//! deterministic parse failures: they mark a single invocation as not
//! rewritable and never abort the scan of the rest of the buffer.

use vstd::prelude::*;

verus! {

#[derive(Debug, Clone, Copy, PartialEq, Eq)]
pub enum GmockSedError {
    /// The "name, return-type" part of an invocation could not be split, or a
    /// declared call-type token was missing.
    ParseSignatureError,
    /// A parenthesis-balancing scan exhausted its input without closing.
    UnmatchedParenthesisError,
}

impl GmockSedError {
    /// The name of the error, as it appears in diagnostic lines.
    pub open spec fn spec_text(self) -> Seq<char> {
        match self {
            GmockSedError::ParseSignatureError => "ParseSignatureError"@,
            GmockSedError::UnmatchedParenthesisError => "UnmatchedParenthesisError"@,
        }
    }

    pub fn text(&self) -> (r: &'static str)
        ensures
            r@ == self.spec_text(),
    {
        match self {
            GmockSedError::ParseSignatureError => "ParseSignatureError",
            GmockSedError::UnmatchedParenthesisError => "UnmatchedParenthesisError",
        }
    }
}

} // verus!
