//! The executable scanner, proved to match the model in [`crate::model`].

use vstd::prelude::*;
use vstd::string::StrSliceExecFns;

use crate::errors::{ScanError, ScanErrorKind, ScanErrorView};
use crate::literal::{option_literal_view, Literal, Number};
use crate::model::{
    alnum_run_end, comment_end, digit_run_end, digits_val, is_alnum_char, is_alpha_char,
    is_digit_char, is_space_char, newlines_between, quote_end, spec_scan, spec_step, scan_from,
    string_step, number_step, ident_step, eof_view, lemma_step_bounds, lemma_prepend_push,
    lemma_digits_val_prefix, lemma_digit_run_end, prepend_tokens, Step,
};
use crate::token::{token_views, Token, TokenView};
use crate::token_kind::TokenKind;

verus! {

/// Relies on `String::push`: appends exactly one character at the end of
/// the string.
#[verifier::external_body]
fn push_char(s: &mut String, c: char)
    ensures
        final(s)@ == old(s)@.push(c),
{
    s.push(c);
}

/// Copy `chars[from..to]` into a fresh string.
#[verifier::loop_isolation(false)]
fn range_string(chars: &Vec<char>, from: usize, to: usize) -> (r: String)
    requires
        from <= to <= chars@.len(),
    ensures
        r@ == chars@.subrange(from as int, to as int),
{
    let mut out = String::new();
    let mut k = from;
    while k < to
        invariant
            from <= k <= to,
            out@ == chars@.subrange(from as int, k as int),
        decreases to - k,
    {
        let c = chars[k];
        push_char(&mut out, c);
        k = k + 1;
        proof {
            assert(out@ =~= chars@.subrange(from as int, k as int));
        }
    }
    proof {
        assert(out@ =~= chars@.subrange(from as int, to as int));
    }
    out
}

/// Read the value of the digit string `chars[from..to]`, or report that it
/// does not fit in an `i64`.
#[verifier::loop_isolation(false)]
fn parse_digits(chars: &Vec<char>, from: usize, to: usize) -> (r: Option<i64>)
    requires
        from <= to <= chars@.len(),
        forall|k: int| from <= k < to ==> is_digit_char(chars@[k]),
    ensures
        match r {
            Some(v) => 0 <= v && v as nat == digits_val(
                chars@.subrange(from as int, to as int),
            ),
            None => digits_val(chars@.subrange(from as int, to as int)) > i64::MAX,
        },
{
    let mut acc: i64 = 0;
    let mut k = from;
    while k < to
        invariant
            from <= k <= to,
            0 <= acc,
            acc as nat == digits_val(chars@.subrange(from as int, k as int)),
        decreases to - k,
    {
        let c = chars[k];
        let d = (c as u32) - ('0' as u32);
        let d64 = d as i64;
        proof {
            assert(is_digit_char(chars@[k as int]));
            assert(chars@.subrange(from as int, (k + 1) as int).drop_last() =~= chars@.subrange(
                from as int,
                k as int,
            ));
            assert(chars@.subrange(from as int, (k + 1) as int).last() == chars@[k as int]);
        }
        if acc > 922_337_203_685_477_580i64 || (acc == 922_337_203_685_477_580i64 && d64 > 7) {
            proof {
                let whole = chars@.subrange(from as int, to as int);
                assert(digits_val(chars@.subrange(from as int, (k + 1) as int)) > i64::MAX);
                lemma_digits_val_prefix(whole, k + 1 - from);
                assert(whole.subrange(0, k + 1 - from) =~= chars@.subrange(
                    from as int,
                    (k + 1) as int,
                ));
            }
            return None;
        }
        acc = acc * 10 + d64;
        k = k + 1;
    }
    proof {
        assert(chars@.subrange(from as int, k as int) =~= chars@.subrange(from as int, to as int));
    }
    Some(acc)
}

/// The character at position `i`, or the null character at or past the end
/// of the input: what one step of lookahead sees.
pub open spec fn spec_peek(s: Seq<char>, i: nat) -> char {
    if i < s.len() {
        s[i as int]
    } else {
        '\0'
    }
}

/// The single-use lexical scanner. It owns the input (decoded into
/// characters once, at construction), a cursor pair marking the lexeme being
/// built, and the 1-based line counter used for diagnostics.
pub struct Scanner {
    characters: Vec<char>,
    start: usize,
    current: usize,
    line: usize,
}

impl Scanner {
    /// The character sequence being scanned.
    pub closed spec fn source(self) -> Seq<char> {
        self.characters@
    }

    /// Internal validity: `start <= current <= len`, and the line counter
    /// is 1-based and cannot have advanced past the cursor.
    pub closed spec fn wf(self) -> bool {
        &&& self.characters@.len() < usize::MAX
        &&& self.start <= self.current <= self.characters@.len()
        &&& 1 <= self.line <= self.current + 1
    }

    /// A freshly constructed scanner: nothing consumed yet, line 1.
    pub closed spec fn fresh(self) -> bool {
        &&& self.wf()
        &&& self.start == 0
        &&& self.current == 0
        &&& self.line == 1
    }

    /// Build a scanner over the given source text. The character count must
    /// sit strictly below `usize::MAX`, so that the line counter (at most
    /// one more than the cursor) can never overflow.
    #[verifier::loop_isolation(false)]
    pub fn new(source: &str) -> (r: Scanner)
        requires
            source@.len() < usize::MAX,
        ensures
            r.fresh(),
            r.source() == source@,
    {
        let n = source.unicode_len();
        let mut characters: Vec<char> = Vec::new();
        let mut k: usize = 0;
        while k < n
            invariant
                k <= n,
                characters@ == source@.subrange(0, k as int),
            decreases n - k,
        {
            let c = source.get_char(k);
            characters.push(c);
            k = k + 1;
            proof {
                assert(characters@ =~= source@.subrange(0, k as int));
            }
        }
        proof {
            assert(characters@ =~= source@);
        }
        Scanner { characters, start: 0, current: 0, line: 1 }
    }

    /// Whether the whole input has been consumed.
    fn is_at_end(&self) -> (r: bool)
        ensures
            r == (self.current >= self.characters@.len()),
    {
        self.current >= self.characters.len()
    }

    /// Whitespace other than newline: space, carriage return, tab.
    fn is_whitespace(&self, ch: char) -> (r: bool)
        ensures
            r == is_space_char(ch),
    {
        ch == '\t' || ch == ' ' || ch == '\r'
    }

    /// An ASCII decimal digit.
    fn is_digit(&self, ch: char) -> (r: bool)
        ensures
            r == is_digit_char(ch),
    {
        (ch as u32) >= ('0' as u32) && (ch as u32) <= ('9' as u32)
    }

    /// An ASCII letter or underscore.
    fn is_alpha(&self, ch: char) -> (r: bool)
        ensures
            r == is_alpha_char(ch),
    {
        ((ch as u32) >= ('a' as u32) && (ch as u32) <= ('z' as u32)) || ((ch as u32) >= (
        'A' as u32) && (ch as u32) <= ('Z' as u32)) || ch == '_'
    }

    /// A character that may continue an identifier.
    fn is_alphanumeric(&self, ch: char) -> (r: bool)
        ensures
            r == is_alnum_char(ch),
    {
        self.is_alpha(ch) || self.is_digit(ch)
    }

    /// The next unread character, without consuming it.
    fn peek(&self) -> (r: char)
        requires
            self.wf(),
        ensures
            r == spec_peek(self.characters@, self.current as nat),
    {
        if self.is_at_end() {
            '\0'
        } else {
            self.characters[self.current]
        }
    }

    /// The character after the next one, without consuming anything.
    fn peek_next(&self) -> (r: char)
        requires
            self.wf(),
        ensures
            r == spec_peek(self.characters@, (self.current + 1) as nat),
    {
        if self.current + 1 >= self.characters.len() {
            '\0'
        } else {
            self.characters[self.current + 1]
        }
    }

    /// Consume and return the next character.
    fn next(&mut self) -> (r: char)
        requires
            old(self).current < old(self).characters@.len(),
            old(self).characters@.len() <= usize::MAX,
        ensures
            final(self).characters@ == old(self).characters@,
            final(self).start == old(self).start,
            final(self).line == old(self).line,
            final(self).current == old(self).current + 1,
            r == old(self).characters@[old(self).current as int],
    {
        self.current = self.current + 1;
        self.characters[self.current - 1]
    }

    /// Consume the next character only if it equals `expected`.
    fn match_char(&mut self, expected: char) -> (r: bool)
        requires
            old(self).wf(),
        ensures
            final(self).wf(),
            final(self).characters@ == old(self).characters@,
            final(self).start == old(self).start,
            final(self).line == old(self).line,
            r == (old(self).current < old(self).characters@.len() && old(self).characters@[old(
                self,
            ).current as int] == expected),
            r ==> final(self).current == old(self).current + 1,
            !r ==> final(self).current == old(self).current,
    {
        if self.is_at_end() {
            return false;
        }
        if self.characters[self.current] != expected {
            return false;
        }
        self.current = self.current + 1;
        true
    }

    /// Build a token for the current lexeme `characters[start..current]`,
    /// stamped with the current line.
    fn make_token(&self, kind: TokenKind, literal: Option<Literal>) -> (r: Token)
        requires
            self.wf(),
        ensures
            r@ == (TokenView {
                kind,
                lexeme: self.characters@.subrange(self.start as int, self.current as int),
                literal: option_literal_view(literal),
                line: self.line as nat,
            }),
    {
        let lexeme = range_string(&self.characters, self.start, self.current);
        Token::new(kind, lexeme.as_str(), literal, self.line)
    }

    /// Scan the rest of a string literal, after its opening quote (at
    /// `start`) has been consumed: find the closing quote, counting embedded
    /// newlines, and take the text between the quotes as the literal value.
    /// Reaching the end of input first fails at the line where the string
    /// began.
    #[verifier::loop_isolation(false)]
    fn scan_string(&mut self) -> (r: Result<Token, ScanError>)
        requires
            old(self).wf(),
            old(self).start + 1 == old(self).current,
            old(self).characters@[old(self).start as int] == '"',
        ensures
            final(self).wf(),
            final(self).characters@ == old(self).characters@,
            final(self).start == old(self).start,
            match string_step(
                old(self).characters@,
                old(self).start as nat,
                old(self).line as nat,
            ) {
                Step::Emit { token, next, line } => r matches Ok(t) && t@ == token
                    && final(self).current == next && final(self).line == line,
                Step::Skip { next, line } => false,
                Step::Fail { kind } => r matches Err(e) && e.kind == kind && e.line == old(
                    self,
                ).line,
            },
    {
        let ghost s = self.characters@;
        let ghost i0 = self.start as nat;
        let start_line = self.line;
        while self.peek() != '"' && !self.is_at_end()
            invariant
                self.wf(),
                self.characters@ == s,
                self.start == old(self).start,
                i0 + 1 <= self.current <= s.len(),
                quote_end(s, (i0 + 1) as nat) == quote_end(s, self.current as nat),
                self.line as nat == old(self).line as nat + newlines_between(
                    s,
                    (i0 + 1) as nat,
                    self.current as nat,
                ),
            decreases s.len() - self.current,
        {
            if self.peek() == '\n' {
                self.line = self.line + 1;
            }
            let _ = self.next();
        }
        proof {
            assert(self.current == quote_end(s, (i0 + 1) as nat));
        }
        if self.is_at_end() {
            return Err(
                ScanError { kind: ScanErrorKind::UnterminatedString, line: start_line },
            );
        }
        // the closing quote
        let _ = self.next();
        let val = range_string(&self.characters, self.start + 1, self.current - 1);
        let lit = Literal::String(val);
        Ok(self.make_token(TokenKind::String, Some(lit)))
    }

    /// Scan the rest of a numeric literal, after its first digit (at
    /// `start`) has been consumed: the remaining digits, and a fractional
    /// part only if a `.` is followed by at least one digit.
    #[verifier::loop_isolation(false)]
    fn scan_number(&mut self) -> (r: Result<Token, ScanError>)
        requires
            old(self).wf(),
            old(self).start + 1 == old(self).current,
            is_digit_char(old(self).characters@[old(self).start as int]),
        ensures
            final(self).wf(),
            final(self).characters@ == old(self).characters@,
            final(self).start == old(self).start,
            match number_step(
                old(self).characters@,
                old(self).start as nat,
                old(self).line as nat,
            ) {
                Step::Emit { token, next, line } => r matches Ok(t) && t@ == token
                    && final(self).current == next && final(self).line == line,
                Step::Skip { next, line } => false,
                Step::Fail { kind } => r matches Err(e) && e.kind == kind && e.line == old(
                    self,
                ).line,
            },
    {
        let ghost s = self.characters@;
        let ghost i0 = self.start as nat;
        while self.is_digit(self.peek())
            invariant
                self.wf(),
                self.characters@ == s,
                self.start == old(self).start,
                self.line == old(self).line,
                i0 + 1 <= self.current <= s.len(),
                digit_run_end(s, (i0 + 1) as nat) == digit_run_end(s, self.current as nat),
            decreases s.len() - self.current,
        {
            let _ = self.next();
        }
        proof {
            assert(self.current == digit_run_end(s, (i0 + 1) as nat));
            lemma_digit_run_end(s, (i0 + 1) as nat);
        }
        let mut is_float = false;
        if self.peek() == '.' && self.is_digit(self.peek_next()) {
            is_float = true;
            // Consume the '.'
            let _ = self.next();
            while self.is_digit(self.peek())
                invariant
                    self.wf(),
                    self.characters@ == s,
                    self.start == old(self).start,
                    self.line == old(self).line,
                    digit_run_end(s, (i0 + 1) as nat) + 1 <= self.current <= s.len(),
                    digit_run_end(s, (digit_run_end(s, (i0 + 1) as nat) + 1) as nat)
                        == digit_run_end(s, self.current as nat),
                decreases s.len() - self.current,
            {
                let _ = self.next();
            }
        }
        if is_float {
            let text = range_string(&self.characters, self.start, self.current);
            let lit = Literal::Number(Number::Float(text));
            return Ok(self.make_token(TokenKind::Number, Some(lit)));
        }
        match parse_digits(&self.characters, self.start, self.current) {
            Some(v) => {
                let lit = Literal::Number(Number::Int(v));
                Ok(self.make_token(TokenKind::Number, Some(lit)))
            },
            None => Err(
                ScanError { kind: ScanErrorKind::MalformedNumber, line: self.line },
            ),
        }
    }

    /// Scan the rest of an identifier, after its first character (at
    /// `start`) has been consumed, and classify the whole text through the
    /// keyword table.
    #[verifier::loop_isolation(false)]
    fn scan_ident(&mut self) -> (r: Result<Token, ScanError>)
        requires
            old(self).wf(),
            old(self).start + 1 == old(self).current,
            is_alpha_char(old(self).characters@[old(self).start as int]),
        ensures
            final(self).wf(),
            final(self).characters@ == old(self).characters@,
            final(self).start == old(self).start,
            match ident_step(
                old(self).characters@,
                old(self).start as nat,
                old(self).line as nat,
            ) {
                Step::Emit { token, next, line } => r matches Ok(t) && t@ == token
                    && final(self).current == next && final(self).line == line,
                Step::Skip { next, line } => false,
                Step::Fail { kind } => false,
            },
    {
        let ghost s = self.characters@;
        let ghost i0 = self.start as nat;
        while self.is_alphanumeric(self.peek())
            invariant
                self.wf(),
                self.characters@ == s,
                self.start == old(self).start,
                self.line == old(self).line,
                i0 + 1 <= self.current <= s.len(),
                alnum_run_end(s, (i0 + 1) as nat) == alnum_run_end(s, self.current as nat),
            decreases s.len() - self.current,
        {
            let _ = self.next();
        }
        proof {
            assert(self.current == alnum_run_end(s, (i0 + 1) as nat));
        }
        let kind = match TokenKind::keyword(&self.characters, self.start, self.current) {
            Some(k) => k,
            None => TokenKind::Identifier,
        };
        Ok(self.make_token(kind, None))
    }

    /// Classify and consume one lexeme: emit its token, or emit nothing for
    /// a newline or a comment, or fail.
    #[verifier::loop_isolation(false)]
    fn scan_token(&mut self) -> (r: Result<Option<Token>, ScanError>)
        requires
            old(self).wf(),
            old(self).start == old(self).current,
            old(self).current < old(self).characters@.len(),
        ensures
            final(self).wf(),
            final(self).characters@ == old(self).characters@,
            final(self).start == old(self).start,
            match spec_step(
                old(self).characters@,
                old(self).current as nat,
                old(self).line as nat,
            ) {
                Step::Emit { token, next, line } => r matches Ok(Some(t)) && t@ == token
                    && final(self).current == next && final(self).line == line,
                Step::Skip { next, line } => r matches Ok(None) && final(self).current == next
                    && final(self).line == line,
                Step::Fail { kind } => r matches Err(e) && e.kind == kind && e.line == old(
                    self,
                ).line,
            },
    {
        let ghost s = self.characters@;
        let ghost i0 = self.current as nat;
        let ch = self.next();
        match ch {
            // Single-character tokens
            '(' => Ok(Some(self.make_token(TokenKind::LeftParen, None))),
            ')' => Ok(Some(self.make_token(TokenKind::RightParen, None))),
            '{' => Ok(Some(self.make_token(TokenKind::LeftBrace, None))),
            '}' => Ok(Some(self.make_token(TokenKind::RightBrace, None))),
            ',' => Ok(Some(self.make_token(TokenKind::Comma, None))),
            '.' => Ok(Some(self.make_token(TokenKind::Dot, None))),
            '-' => Ok(Some(self.make_token(TokenKind::Minus, None))),
            '+' => Ok(Some(self.make_token(TokenKind::Plus, None))),
            ';' => Ok(Some(self.make_token(TokenKind::Semicolon, None))),
            '*' => Ok(Some(self.make_token(TokenKind::Star, None))),
            // One- or two-character operators
            '!' => {
                if self.match_char('=') {
                    Ok(Some(self.make_token(TokenKind::BangEqual, None)))
                } else {
                    Ok(Some(self.make_token(TokenKind::Bang, None)))
                }
            },
            '=' => {
                if self.match_char('=') {
                    Ok(Some(self.make_token(TokenKind::EqualEqual, None)))
                } else {
                    Ok(Some(self.make_token(TokenKind::Equal, None)))
                }
            },
            '<' => {
                if self.match_char('=') {
                    Ok(Some(self.make_token(TokenKind::LesserEqual, None)))
                } else {
                    Ok(Some(self.make_token(TokenKind::Lesser, None)))
                }
            },
            '>' => {
                if self.match_char('=') {
                    Ok(Some(self.make_token(TokenKind::GreaterEqual, None)))
                } else {
                    Ok(Some(self.make_token(TokenKind::Greater, None)))
                }
            },
            // A slash, or a line comment that produces no token
            '/' => {
                if self.match_char('/') {
                    while self.peek() != '\n' && !self.is_at_end()
                        invariant
                            self.wf(),
                            self.characters@ == s,
                            self.start == old(self).start,
                            self.line == old(self).line,
                            i0 + 2 <= self.current <= s.len(),
                            comment_end(s, (i0 + 2) as nat) == comment_end(
                                s,
                                self.current as nat,
                            ),
                        decreases s.len() - self.current,
                    {
                        let _ = self.next();
                    }
                    proof {
                        assert(self.current == comment_end(s, (i0 + 2) as nat));
                    }
                    Ok(None)
                } else {
                    Ok(Some(self.make_token(TokenKind::Slash, None)))
                }
            },
            // A newline restarts classification on the next line
            '\n' => {
                self.line = self.line + 1;
                Ok(None)
            },
            // A string literal
            '"' => {
                match self.scan_string() {
                    Ok(t) => Ok(Some(t)),
                    Err(e) => Err(e),
                }
            },
            _ => {
                if self.is_whitespace(ch) {
                    Ok(Some(self.make_token(TokenKind::Ws, None)))
                } else if self.is_digit(ch) {
                    match self.scan_number() {
                        Ok(t) => Ok(Some(t)),
                        Err(e) => Err(e),
                    }
                } else if self.is_alpha(ch) {
                    match self.scan_ident() {
                        Ok(t) => Ok(Some(t)),
                        Err(e) => Err(e),
                    }
                } else {
                    Err(ScanError { kind: ScanErrorKind::InvalidCharacter, line: self.line })
                }
            },
        }
    }

    /// Scan the whole input: the ordered token sequence, ended by exactly
    /// one `Eof` token, or the first error. Consumes the scanner.
    #[verifier::loop_isolation(false)]
    pub fn scan(self) -> (r: Result<Vec<Token>, ScanError>)
        requires
            self.fresh(),
        ensures
            match r {
                Ok(tokens) => spec_scan(self.source()) == Ok::<Seq<TokenView>, ScanErrorView>(
                    token_views(tokens@),
                ),
                Err(e) => spec_scan(self.source()) == Err::<Seq<TokenView>, ScanErrorView>(e@),
            },
    {
        let mut sc = self;
        let ghost s = sc.characters@;
        let mut tokens: Vec<Token> = Vec::new();
        while !sc.is_at_end()
            invariant
                sc.wf(),
                sc.characters@ == s,
                scan_from(s, 0, 1) == prepend_tokens(
                    token_views(tokens@),
                    scan_from(s, sc.current as nat, sc.line as nat),
                ),
            decreases s.len() - sc.current,
        {
            sc.start = sc.current;
            let ghost i0 = sc.current as nat;
            let ghost l0 = sc.line as nat;
            let ghost prev = token_views(tokens@);
            let step_result = sc.scan_token();
            proof {
                lemma_step_bounds(s, i0, l0);
            }
            match step_result {
                Ok(Some(t)) => {
                    tokens.push(t);
                    proof {
                        let step = spec_step(s, i0, l0);
                        match step {
                            Step::Emit { token, next, line } => {
                                assert(token_views(tokens@) =~= prev.push(token));
                                lemma_prepend_push(prev, token, scan_from(s, next, line));
                            },
                            _ => {},
                        }
                    }
                },
                Ok(None) => {},
                Err(e) => {
                    return Err(e);
                },
            }
        }
        let eof = Token::new(TokenKind::Eof, "", None, sc.line);
        proof {
            reveal_strlit("");
            assert(eof@.lexeme =~= Seq::<char>::empty());
            assert(eof@ == eof_view(sc.line as nat));
        }
        let ghost prev = token_views(tokens@);
        tokens.push(eof);
        proof {
            assert(token_views(tokens@) =~= prev.push(eof_view(sc.line as nat)));
            assert(prev + seq![eof_view(sc.line as nat)] =~= prev.push(
                eof_view(sc.line as nat),
            ));
        }
        Ok(tokens)
    }
}

} // verus!
