//! The scanner's error type: a closed set of error kinds, each carrying the
//! 1-based source line on which the problem was found.

use vstd::prelude::*;

verus! {

/// The three ways a scan can fail.
#[derive(Debug, Clone, Copy, PartialEq, Eq, Structural)]
pub enum ScanErrorKind {
    /// End of input was reached while inside a string literal.
    UnterminatedString,
    /// A character that matches no lexical rule.
    InvalidCharacter,
    /// A digit sequence whose value does not fit the integer literal type.
    MalformedNumber,
}

/// A scan failure: what went wrong, and on which 1-based line.
#[derive(Debug, Clone, Copy, PartialEq, Eq, Structural)]
pub struct ScanError {
    pub kind: ScanErrorKind,
    pub line: usize,
}

/// Mathematical image of a [`ScanError`]: the same kind, with the line as
/// an unbounded natural number.
pub struct ScanErrorView {
    pub kind: ScanErrorKind,
    pub line: nat,
}

impl View for ScanError {
    type V = ScanErrorView;

    open spec fn view(&self) -> ScanErrorView {
        ScanErrorView { kind: self.kind, line: self.line as nat }
    }
}

impl ScanError {
    /// A human-readable description of the error kind.
    pub fn message(&self) -> (r: &'static str)
        ensures
            self.kind == ScanErrorKind::UnterminatedString ==> r@ == "unterminated string"@,
            self.kind == ScanErrorKind::InvalidCharacter ==> r@ == "unrecognized character"@,
            self.kind == ScanErrorKind::MalformedNumber ==> r@ == "malformed number"@,
    {
        match self.kind {
            ScanErrorKind::UnterminatedString => "unterminated string",
            ScanErrorKind::InvalidCharacter => "unrecognized character",
            ScanErrorKind::MalformedNumber => "malformed number",
        }
    }
}

} // verus!

