//! The closed set of token kinds, and the fixed keyword table.

use vstd::prelude::*;

verus! {

/// Classification of one token.
#[derive(Debug, Clone, Copy, PartialEq, Eq, Structural)]
pub enum TokenKind {
    // Single-character punctuation.
    LeftParen,
    RightParen,
    LeftBrace,
    RightBrace,
    Comma,
    Dot,
    Minus,
    Plus,
    Semicolon,
    Star,
    Slash,
    // One- or two-character operators.
    Bang,
    BangEqual,
    Equal,
    EqualEqual,
    Lesser,
    LesserEqual,
    Greater,
    GreaterEqual,
    // Literals.
    String,
    Number,
    // Identifiers and reserved keywords.
    Identifier,
    And,
    Class,
    Else,
    False,
    Fun,
    For,
    If,
    Nil,
    Or,
    Print,
    Return,
    Super,
    This,
    True,
    Var,
    While,
    // A run of one whitespace character. Whitespace is tokenized rather than
    // silently discarded; callers that want it suppressed filter these out.
    Ws,
    // End of input; always the last token of a successful scan.
    Eof,
}

/// The fixed keyword table: which identifier texts are reserved words,
/// and the kind each one maps to.
pub open spec fn spec_keyword(text: Seq<char>) -> Option<TokenKind> {
    if text == "and"@ {
        Some(TokenKind::And)
    } else if text == "class"@ {
        Some(TokenKind::Class)
    } else if text == "else"@ {
        Some(TokenKind::Else)
    } else if text == "false"@ {
        Some(TokenKind::False)
    } else if text == "fun"@ {
        Some(TokenKind::Fun)
    } else if text == "for"@ {
        Some(TokenKind::For)
    } else if text == "if"@ {
        Some(TokenKind::If)
    } else if text == "nil"@ {
        Some(TokenKind::Nil)
    } else if text == "or"@ {
        Some(TokenKind::Or)
    } else if text == "print"@ {
        Some(TokenKind::Print)
    } else if text == "return"@ {
        Some(TokenKind::Return)
    } else if text == "super"@ {
        Some(TokenKind::Super)
    } else if text == "this"@ {
        Some(TokenKind::This)
    } else if text == "true"@ {
        Some(TokenKind::True)
    } else if text == "var"@ {
        Some(TokenKind::Var)
    } else if text == "while"@ {
        Some(TokenKind::While)
    } else {
        None
    }
}

/// The text of each reserved word, as an explicit character sequence.
pub proof fn lemma_keyword_literals()
    ensures
        "and"@ == seq!['a', 'n', 'd'],
        "class"@ == seq!['c', 'l', 'a', 's', 's'],
        "else"@ == seq!['e', 'l', 's', 'e'],
        "false"@ == seq!['f', 'a', 'l', 's', 'e'],
        "fun"@ == seq!['f', 'u', 'n'],
        "for"@ == seq!['f', 'o', 'r'],
        "if"@ == seq!['i', 'f'],
        "nil"@ == seq!['n', 'i', 'l'],
        "or"@ == seq!['o', 'r'],
        "print"@ == seq!['p', 'r', 'i', 'n', 't'],
        "return"@ == seq!['r', 'e', 't', 'u', 'r', 'n'],
        "super"@ == seq!['s', 'u', 'p', 'e', 'r'],
        "this"@ == seq!['t', 'h', 'i', 's'],
        "true"@ == seq!['t', 'r', 'u', 'e'],
        "var"@ == seq!['v', 'a', 'r'],
        "while"@ == seq!['w', 'h', 'i', 'l', 'e'],
{
    reveal_strlit("and");
    reveal_strlit("class");
    reveal_strlit("else");
    reveal_strlit("false");
    reveal_strlit("fun");
    reveal_strlit("for");
    reveal_strlit("if");
    reveal_strlit("nil");
    reveal_strlit("or");
    reveal_strlit("print");
    reveal_strlit("return");
    reveal_strlit("super");
    reveal_strlit("this");
    reveal_strlit("true");
    reveal_strlit("var");
    reveal_strlit("while");
    assert("and"@ =~= seq!['a', 'n', 'd']);
    assert("class"@ =~= seq!['c', 'l', 'a', 's', 's']);
    assert("else"@ =~= seq!['e', 'l', 's', 'e']);
    assert("false"@ =~= seq!['f', 'a', 'l', 's', 'e']);
    assert("fun"@ =~= seq!['f', 'u', 'n']);
    assert("for"@ =~= seq!['f', 'o', 'r']);
    assert("if"@ =~= seq!['i', 'f']);
    assert("nil"@ =~= seq!['n', 'i', 'l']);
    assert("or"@ =~= seq!['o', 'r']);
    assert("print"@ =~= seq!['p', 'r', 'i', 'n', 't']);
    assert("return"@ =~= seq!['r', 'e', 't', 'u', 'r', 'n']);
    assert("super"@ =~= seq!['s', 'u', 'p', 'e', 'r']);
    assert("this"@ =~= seq!['t', 'h', 'i', 's']);
    assert("true"@ =~= seq!['t', 'r', 'u', 'e']);
    assert("var"@ =~= seq!['v', 'a', 'r']);
    assert("while"@ =~= seq!['w', 'h', 'i', 'l', 'e']);
}

impl TokenKind {
    /// Look the identifier text `chars[from..to]` up in the keyword table.
    pub fn keyword(chars: &Vec<char>, from: usize, to: usize) -> (r: Option<TokenKind>)
        requires
            from <= to <= chars@.len(),
        ensures
            r == spec_keyword(chars@.subrange(from as int, to as int)),
    {
        proof {
            lemma_keyword_literals();
        }
        let ghost text = chars@.subrange(from as int, to as int);
        let n = to - from;
        if n == 2 {
            let c0 = chars[from];
            let c1 = chars[from + 1];
            if c0 == 'i' && c1 == 'f' {
                proof { assert(text =~= seq!['i', 'f']); }
                return Some(TokenKind::If);
            }
            if c0 == 'o' && c1 == 'r' {
                proof { assert(text =~= seq!['o', 'r']); }
                return Some(TokenKind::Or);
            }
        } else if n == 3 {
            let c0 = chars[from];
            let c1 = chars[from + 1];
            let c2 = chars[from + 2];
            if c0 == 'a' && c1 == 'n' && c2 == 'd' {
                proof { assert(text =~= seq!['a', 'n', 'd']); }
                return Some(TokenKind::And);
            }
            if c0 == 'f' && c1 == 'u' && c2 == 'n' {
                proof { assert(text =~= seq!['f', 'u', 'n']); }
                return Some(TokenKind::Fun);
            }
            if c0 == 'f' && c1 == 'o' && c2 == 'r' {
                proof { assert(text =~= seq!['f', 'o', 'r']); }
                return Some(TokenKind::For);
            }
            if c0 == 'n' && c1 == 'i' && c2 == 'l' {
                proof { assert(text =~= seq!['n', 'i', 'l']); }
                return Some(TokenKind::Nil);
            }
            if c0 == 'v' && c1 == 'a' && c2 == 'r' {
                proof { assert(text =~= seq!['v', 'a', 'r']); }
                return Some(TokenKind::Var);
            }
        } else if n == 4 {
            let c0 = chars[from];
            let c1 = chars[from + 1];
            let c2 = chars[from + 2];
            let c3 = chars[from + 3];
            if c0 == 'e' && c1 == 'l' && c2 == 's' && c3 == 'e' {
                proof { assert(text =~= seq!['e', 'l', 's', 'e']); }
                return Some(TokenKind::Else);
            }
            if c0 == 't' && c1 == 'h' && c2 == 'i' && c3 == 's' {
                proof { assert(text =~= seq!['t', 'h', 'i', 's']); }
                return Some(TokenKind::This);
            }
            if c0 == 't' && c1 == 'r' && c2 == 'u' && c3 == 'e' {
                proof { assert(text =~= seq!['t', 'r', 'u', 'e']); }
                return Some(TokenKind::True);
            }
        } else if n == 5 {
            let c0 = chars[from];
            let c1 = chars[from + 1];
            let c2 = chars[from + 2];
            let c3 = chars[from + 3];
            let c4 = chars[from + 4];
            if c0 == 'c' && c1 == 'l' && c2 == 'a' && c3 == 's' && c4 == 's' {
                proof { assert(text =~= seq!['c', 'l', 'a', 's', 's']); }
                return Some(TokenKind::Class);
            }
            if c0 == 'f' && c1 == 'a' && c2 == 'l' && c3 == 's' && c4 == 'e' {
                proof { assert(text =~= seq!['f', 'a', 'l', 's', 'e']); }
                return Some(TokenKind::False);
            }
            if c0 == 'p' && c1 == 'r' && c2 == 'i' && c3 == 'n' && c4 == 't' {
                proof { assert(text =~= seq!['p', 'r', 'i', 'n', 't']); }
                return Some(TokenKind::Print);
            }
            if c0 == 's' && c1 == 'u' && c2 == 'p' && c3 == 'e' && c4 == 'r' {
                proof { assert(text =~= seq!['s', 'u', 'p', 'e', 'r']); }
                return Some(TokenKind::Super);
            }
            if c0 == 'w' && c1 == 'h' && c2 == 'i' && c3 == 'l' && c4 == 'e' {
                proof { assert(text =~= seq!['w', 'h', 'i', 'l', 'e']); }
                return Some(TokenKind::While);
            }
        } else if n == 6 {
            let c0 = chars[from];
            let c1 = chars[from + 1];
            let c2 = chars[from + 2];
            let c3 = chars[from + 3];
            let c4 = chars[from + 4];
            let c5 = chars[from + 5];
            if c0 == 'r' && c1 == 'e' && c2 == 't' && c3 == 'u' && c4 == 'r' && c5 == 'n' {
                proof { assert(text =~= seq!['r', 'e', 't', 'u', 'r', 'n']); }
                return Some(TokenKind::Return);
            }
        }
        proof {
            // The fallthrough text is no reserved word: it differs from each
            // one either in length or, per the branches above, in some
            // character.
            assert(text.len() == n as int);
            assert(text.len() != 2 ==> text != "if"@ && text != "or"@);
            assert(text.len() != 3 ==> text != "and"@ && text != "fun"@ && text != "for"@
                && text != "nil"@ && text != "var"@);
            assert(text.len() != 4 ==> text != "else"@ && text != "this"@ && text != "true"@);
            assert(text.len() != 5 ==> text != "class"@ && text != "false"@ && text != "print"@
                && text != "super"@ && text != "while"@);
            assert(text.len() != 6 ==> text != "return"@);
            assert(spec_keyword(text) == Option::<TokenKind>::None);
        }
        None
    }
}

} // verus!
