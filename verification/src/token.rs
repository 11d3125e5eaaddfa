//! One classified unit of scanner output.

use vstd::prelude::*;
use vstd::string::StringExecFns;

use crate::literal::{option_literal_view, Literal, LiteralView};
use crate::token_kind::TokenKind;

verus! {

/// A token: its kind, the raw source text it was matched from, an optional
/// literal value, and the 1-based source line it was recognized on.
/// Created once by the scanner; never mutated afterwards.
#[derive(Debug, Clone, PartialEq)]
pub struct Token {
    pub kind: TokenKind,
    pub lexeme: String,
    pub literal: Option<Literal>,
    pub line: usize,
}

/// Mathematical image of a [`Token`].
pub struct TokenView {
    pub kind: TokenKind,
    pub lexeme: Seq<char>,
    pub literal: Option<LiteralView>,
    pub line: nat,
}

impl View for Token {
    type V = TokenView;

    open spec fn view(&self) -> TokenView {
        TokenView {
            kind: self.kind,
            lexeme: self.lexeme@,
            literal: match self.literal {
                Some(l) => Some(l@),
                None => None,
            },
            line: self.line as nat,
        }
    }
}

/// The views of a token sequence, in order.
pub open spec fn token_views(ts: Seq<Token>) -> Seq<TokenView> {
    ts.map_values(|t: Token| t@)
}

impl Token {
    /// Build a token from its parts; the lexeme text is copied.
    pub fn new(kind: TokenKind, lexeme: &str, literal: Option<Literal>, line: usize) -> (r: Token)
        ensures
            r@ == (TokenView {
                kind,
                lexeme: lexeme@,
                literal: option_literal_view(literal),
                line: line as nat,
            }),
    {
        Token { kind, lexeme: String::from_str(lexeme), literal, line }
    }
}

} // verus!
