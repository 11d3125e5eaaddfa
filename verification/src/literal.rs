//! Literal values attached to `String` and `Number` tokens.

use vstd::prelude::*;

verus! {

/// The value carried by a literal token.
#[derive(Debug, Clone, PartialEq)]
pub enum Literal {
    /// The text strictly between the quotes of a string literal.
    /// Escape sequences are not interpreted.
    String(String),
    /// The value of a numeric literal.
    Number(Number),
}

/// A numeric literal value. Integral and floating-point literals are kept
/// apart so that downstream consumers stay exhaustive over both forms.
#[derive(Debug, Clone, PartialEq)]
pub enum Number {
    /// An integral literal, e.g. `123`.
    Int(i64),
    /// A floating-point literal, carried as its exact source text,
    /// e.g. `"12.5"`. The text is always of the shape `digits '.' digits`,
    /// so any caller that wants a machine float can convert it without loss
    /// of information about the written form.
    Float(String),
}

/// Mathematical image of a [`Literal`].
pub enum LiteralView {
    String(Seq<char>),
    Number(NumberView),
}

/// Mathematical image of a [`Number`].
pub enum NumberView {
    Int(int),
    Float(Seq<char>),
}

impl View for Number {
    type V = NumberView;

    open spec fn view(&self) -> NumberView {
        match self {
            Number::Int(v) => NumberView::Int(*v as int),
            Number::Float(s) => NumberView::Float(s@),
        }
    }
}

impl View for Literal {
    type V = LiteralView;

    open spec fn view(&self) -> LiteralView {
        match self {
            Literal::String(s) => LiteralView::String(s@),
            Literal::Number(n) => LiteralView::Number(n@),
        }
    }
}

/// The view of an optional literal.
pub open spec fn option_literal_view(l: Option<Literal>) -> Option<LiteralView> {
    match l {
        Some(x) => Some(x@),
        None => None,
    }
}

} // verus!
