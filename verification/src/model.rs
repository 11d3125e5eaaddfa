//! Mathematical model of a scan.
//!
//! [`spec_scan`] says, for every input, exactly which token sequence (or
//! which error) a scan produces. The executable scanner's contract ties its
//! result to this model, so every property of the scanner can be stated and
//! proved here, over plain sequences of characters.

use vstd::prelude::*;

use crate::errors::{ScanErrorKind, ScanErrorView};
use crate::literal::{LiteralView, NumberView};
use crate::token::TokenView;
use crate::token_kind::{spec_keyword, TokenKind};

verus! {

// ---------------------------------------------------------------------------
// Character classes
// ---------------------------------------------------------------------------

/// An ASCII decimal digit.
pub open spec fn is_digit_char(c: char) -> bool {
    ('0' as u32) <= (c as u32) && (c as u32) <= ('9' as u32)
}

/// An ASCII letter or underscore: what may start an identifier.
pub open spec fn is_alpha_char(c: char) -> bool {
    (('a' as u32) <= (c as u32) && (c as u32) <= ('z' as u32))
    || (('A' as u32) <= (c as u32) && (c as u32) <= ('Z' as u32))
    || c == '_'
}

/// What may continue an identifier.
pub open spec fn is_alnum_char(c: char) -> bool {
    is_alpha_char(c) || is_digit_char(c)
}

/// Whitespace other than newline: space, carriage return, tab.
pub open spec fn is_space_char(c: char) -> bool {
    c == ' ' || c == '\r' || c == '\t'
}

// ---------------------------------------------------------------------------
// Runs of characters
// ---------------------------------------------------------------------------

/// The first position at or after `i` that does not hold a digit
/// (or the end of input).
pub open spec fn digit_run_end(s: Seq<char>, i: nat) -> nat
    decreases s.len() - i,
    when i <= s.len()
{
    if i < s.len() && is_digit_char(s[i as int]) {
        digit_run_end(s, (i + 1) as nat)
    } else {
        i
    }
}

/// The first position at or after `i` that does not hold an identifier
/// character (or the end of input).
pub open spec fn alnum_run_end(s: Seq<char>, i: nat) -> nat
    decreases s.len() - i,
    when i <= s.len()
{
    if i < s.len() && is_alnum_char(s[i as int]) {
        alnum_run_end(s, (i + 1) as nat)
    } else {
        i
    }
}

/// The first position at or after `i` that holds a newline
/// (or the end of input): where a line comment stops.
pub open spec fn comment_end(s: Seq<char>, i: nat) -> nat
    decreases s.len() - i,
    when i <= s.len()
{
    if i < s.len() && s[i as int] != '\n' {
        comment_end(s, (i + 1) as nat)
    } else {
        i
    }
}

/// The first position at or after `i` that holds a double quote
/// (or the end of input): where a string literal closes.
pub open spec fn quote_end(s: Seq<char>, i: nat) -> nat
    decreases s.len() - i,
    when i <= s.len()
{
    if i < s.len() && s[i as int] != '"' {
        quote_end(s, (i + 1) as nat)
    } else {
        i
    }
}

/// How many newline characters `s[a..b)` holds.
pub open spec fn newlines_between(s: Seq<char>, a: nat, b: nat) -> nat
    decreases b - a,
    when a <= b
{
    if a < b {
        newlines_between(s, a, (b - 1) as nat)
            + if b - 1 < s.len() && s[b - 1] == '\n' { 1nat } else { 0nat }
    } else {
        0
    }
}

// ---------------------------------------------------------------------------
// Digit strings as numbers
// ---------------------------------------------------------------------------

/// The value of one digit character.
pub open spec fn digit_of(c: char) -> nat {
    if is_digit_char(c) {
        ((c as u32) - ('0' as u32)) as nat
    } else {
        0
    }
}

/// The value of a digit string read in base 10.
pub open spec fn digits_val(s: Seq<char>) -> nat
    decreases s.len(),
{
    if s.len() == 0 {
        0
    } else {
        digits_val(s.drop_last()) * 10 + digit_of(s.last())
    }
}

/// A digit string is worth at least as much as any of its prefixes: reading
/// further digits can only grow the value.
pub proof fn lemma_digits_val_prefix(s: Seq<char>, m: int)
    requires
        0 <= m <= s.len(),
    ensures
        digits_val(s) >= digits_val(s.subrange(0, m)),
    decreases s.len() - m,
{
    if m < s.len() {
        assert(s.subrange(0, m + 1).drop_last() =~= s.subrange(0, m));
        assert(s.subrange(0, m + 1).last() == s[m]);
        assert(digits_val(s.subrange(0, m + 1)) >= digits_val(s.subrange(0, m)));
        lemma_digits_val_prefix(s, m + 1);
    } else {
        assert(s.subrange(0, m) =~= s);
    }
}

// ---------------------------------------------------------------------------
// One classification step
// ---------------------------------------------------------------------------

/// What classifying one lexeme does: emit a token and advance, advance
/// without a token (newline, comment), or fail.
pub enum Step {
    Emit { token: TokenView, next: nat, line: nat },
    Skip { next: nat, line: nat },
    Fail { kind: ScanErrorKind },
}

/// The token for a lexeme of `n` characters starting at `i`, with no
/// literal value.
pub open spec fn plain_token(s: Seq<char>, i: nat, n: nat, kind: TokenKind, line: nat) -> TokenView {
    TokenView {
        kind,
        lexeme: s.subrange(i as int, i + n as int),
        literal: None,
        line,
    }
}

/// Emit a plain token of `n` characters and advance past it.
pub open spec fn emit_plain(s: Seq<char>, i: nat, n: nat, kind: TokenKind, line: nat) -> Step {
    Step::Emit { token: plain_token(s, i, n, kind, line), next: (i + n) as nat, line }
}

/// Disambiguate a one- or two-character operator: if the next character is
/// `=`, the two-character kind, else the one-character kind.
pub open spec fn one_or_two(s: Seq<char>, i: nat, line: nat, one: TokenKind, two: TokenKind) -> Step {
    if i + 1 < s.len() && s[i + 1 as int] == '=' {
        emit_plain(s, i, 2, two, line)
    } else {
        emit_plain(s, i, 1, one, line)
    }
}

/// Scan a string literal opened by the quote at `i`: the literal value is
/// the text strictly between the quotes, the token's line is the line of the
/// closing quote, and an unterminated string fails at the line where it
/// began. Escape sequences are not interpreted.
pub open spec fn string_step(s: Seq<char>, i: nat, line: nat) -> Step {
    let q = quote_end(s, (i + 1) as nat);
    if q < s.len() {
        let l2 = (line + newlines_between(s, (i + 1) as nat, q)) as nat;
        Step::Emit {
            token: TokenView {
                kind: TokenKind::String,
                lexeme: s.subrange(i as int, q as int + 1),
                literal: Some(LiteralView::String(s.subrange(i as int + 1, q as int))),
                line: l2,
            },
            next: (q + 1) as nat,
            line: l2,
        }
    } else {
        Step::Fail { kind: ScanErrorKind::UnterminatedString }
    }
}

/// Scan a numeric literal whose first digit stands at `i`. A `.` is consumed
/// only if a digit follows it; an integral literal whose value does not fit
/// in `i64` fails.
pub open spec fn number_step(s: Seq<char>, i: nat, line: nat) -> Step {
    let d1 = digit_run_end(s, (i + 1) as nat);
    if d1 + 1 < s.len() && s[d1 as int] == '.' && is_digit_char(s[d1 + 1 as int]) {
        let d2 = digit_run_end(s, (d1 + 1) as nat);
        Step::Emit {
            token: TokenView {
                kind: TokenKind::Number,
                lexeme: s.subrange(i as int, d2 as int),
                literal: Some(LiteralView::Number(NumberView::Float(
                    s.subrange(i as int, d2 as int),
                ))),
                line,
            },
            next: d2,
            line,
        }
    } else {
        let v = digits_val(s.subrange(i as int, d1 as int));
        if v <= i64::MAX {
            Step::Emit {
                token: TokenView {
                    kind: TokenKind::Number,
                    lexeme: s.subrange(i as int, d1 as int),
                    literal: Some(LiteralView::Number(NumberView::Int(v as int))),
                    line,
                },
                next: d1,
                line,
            }
        } else {
            Step::Fail { kind: ScanErrorKind::MalformedNumber }
        }
    }
}

/// Scan an identifier whose first character stands at `i`, and classify it
/// through the keyword table.
pub open spec fn ident_step(s: Seq<char>, i: nat, line: nat) -> Step {
    let e = alnum_run_end(s, (i + 1) as nat);
    let text = s.subrange(i as int, e as int);
    let kind = match spec_keyword(text) {
        Some(k) => k,
        None => TokenKind::Identifier,
    };
    Step::Emit {
        token: TokenView { kind, lexeme: text, literal: None, line },
        next: e,
        line,
    }
}

/// Classify the lexeme that starts at `i` (meaningful for `i < s.len()`).
pub open spec fn spec_step(s: Seq<char>, i: nat, line: nat) -> Step {
    let c = s[i as int];
    if c == '(' {
        emit_plain(s, i, 1, TokenKind::LeftParen, line)
    } else if c == ')' {
        emit_plain(s, i, 1, TokenKind::RightParen, line)
    } else if c == '{' {
        emit_plain(s, i, 1, TokenKind::LeftBrace, line)
    } else if c == '}' {
        emit_plain(s, i, 1, TokenKind::RightBrace, line)
    } else if c == ',' {
        emit_plain(s, i, 1, TokenKind::Comma, line)
    } else if c == '.' {
        emit_plain(s, i, 1, TokenKind::Dot, line)
    } else if c == '-' {
        emit_plain(s, i, 1, TokenKind::Minus, line)
    } else if c == '+' {
        emit_plain(s, i, 1, TokenKind::Plus, line)
    } else if c == ';' {
        emit_plain(s, i, 1, TokenKind::Semicolon, line)
    } else if c == '*' {
        emit_plain(s, i, 1, TokenKind::Star, line)
    } else if c == '!' {
        one_or_two(s, i, line, TokenKind::Bang, TokenKind::BangEqual)
    } else if c == '=' {
        one_or_two(s, i, line, TokenKind::Equal, TokenKind::EqualEqual)
    } else if c == '<' {
        one_or_two(s, i, line, TokenKind::Lesser, TokenKind::LesserEqual)
    } else if c == '>' {
        one_or_two(s, i, line, TokenKind::Greater, TokenKind::GreaterEqual)
    } else if c == '/' {
        if i + 1 < s.len() && s[i + 1 as int] == '/' {
            Step::Skip { next: comment_end(s, (i + 2) as nat), line }
        } else {
            emit_plain(s, i, 1, TokenKind::Slash, line)
        }
    } else if is_space_char(c) {
        emit_plain(s, i, 1, TokenKind::Ws, line)
    } else if c == '\n' {
        Step::Skip { next: (i + 1) as nat, line: (line + 1) as nat }
    } else if c == '"' {
        string_step(s, i, line)
    } else if is_digit_char(c) {
        number_step(s, i, line)
    } else if is_alpha_char(c) {
        ident_step(s, i, line)
    } else {
        Step::Fail { kind: ScanErrorKind::InvalidCharacter }
    }
}

// ---------------------------------------------------------------------------
// A whole scan
// ---------------------------------------------------------------------------

/// The end-of-input token: kind `Eof`, empty lexeme, at the final line.
pub open spec fn eof_view(line: nat) -> TokenView {
    TokenView { kind: TokenKind::Eof, lexeme: Seq::empty(), literal: None, line }
}

/// Put `ts` in front of the tokens of `r`, or keep `r`'s error.
pub open spec fn prepend_tokens(
    ts: Seq<TokenView>,
    r: Result<Seq<TokenView>, ScanErrorView>,
) -> Result<Seq<TokenView>, ScanErrorView> {
    match r {
        Ok(rest) => Ok(ts + rest),
        Err(e) => Err(e),
    }
}

/// Scan everything from position `i` on line `line`: the remaining tokens,
/// ended by exactly one `Eof` token, or the first error.
pub open spec fn scan_from(s: Seq<char>, i: nat, line: nat) -> Result<Seq<TokenView>, ScanErrorView>
    decreases s.len() - i,
    when i <= s.len()
    via scan_from_dec
{
    if i >= s.len() {
        Ok(seq![eof_view(line)])
    } else {
        match spec_step(s, i, line) {
            Step::Emit { token, next, line: l2 } => prepend_tokens(
                seq![token],
                scan_from(s, next, l2),
            ),
            Step::Skip { next, line: l2 } => scan_from(s, next, l2),
            Step::Fail { kind } => Err(ScanErrorView { kind, line }),
        }
    }
}

#[via_fn]
proof fn scan_from_dec(s: Seq<char>, i: nat, line: nat) {
    if i < s.len() {
        lemma_step_bounds(s, i, line);
    }
}

/// What scanning a whole input yields: the model that the executable
/// scanner is proved to match.
pub open spec fn spec_scan(s: Seq<char>) -> Result<Seq<TokenView>, ScanErrorView> {
    scan_from(s, 0, 1)
}

// ---------------------------------------------------------------------------
// Laws of a whole scan
// ---------------------------------------------------------------------------

proof fn lemma_scan_from_single_eof(s: Seq<char>, i: nat, line: nat)
    requires
        i <= s.len(),
    ensures
        match scan_from(s, i, line) {
            Ok(ts) => ts.len() >= 1 && ts.last().kind == TokenKind::Eof && (forall|k: int|
                0 <= k < ts.len() - 1 ==> ts[k].kind != TokenKind::Eof),
            Err(e) => true,
        },
    decreases s.len() - i,
{
    if i < s.len() {
        lemma_step_bounds(s, i, line);
        lemma_step_not_eof(s, i, line);
        match spec_step(s, i, line) {
            Step::Emit { token, next, line: l2 } => {
                lemma_scan_from_single_eof(s, next, l2);
                match scan_from(s, next, l2) {
                    Ok(rest) => {
                        let ts = seq![token] + rest;
                        assert(ts.last() == rest.last());
                        assert forall|k: int| 0 <= k < ts.len() - 1 implies ts[k].kind
                            != TokenKind::Eof by {
                            if k > 0 {
                                assert(ts[k] == rest[k - 1]);
                            }
                        }
                    },
                    Err(e) => {},
                }
            },
            Step::Skip { next, line: l2 } => {
                lemma_scan_from_single_eof(s, next, l2);
            },
            Step::Fail { kind } => {},
        }
    }
}

/// A scan never returns an empty success: it either fails, or yields a
/// sequence that ends in exactly one `Eof` token, with no `Eof` anywhere
/// earlier.
pub proof fn lemma_scan_single_eof(s: Seq<char>)
    ensures
        match spec_scan(s) {
            Ok(ts) => ts.len() >= 1 && ts.last().kind == TokenKind::Eof && (forall|k: int|
                0 <= k < ts.len() - 1 ==> ts[k].kind != TokenKind::Eof),
            Err(e) => true,
        },
{
    lemma_scan_from_single_eof(s, 0, 1);
}

proof fn lemma_scan_from_whitespace(s: Seq<char>, i: nat, line: nat)
    requires
        i <= s.len(),
        forall|k: int| 0 <= k < s.len() ==> is_space_char(s[k]),
    ensures
        match scan_from(s, i, line) {
            Ok(ts) => ts.len() == s.len() - i + 1 && (forall|k: int|
                0 <= k < ts.len() - 1 ==> ts[k].kind == TokenKind::Ws) && ts.last().kind
                == TokenKind::Eof,
            Err(e) => false,
        },
    decreases s.len() - i,
{
    if i < s.len() {
        assert(is_space_char(s[i as int]));
        assert(spec_step(s, i, line) == emit_plain(s, i, 1, TokenKind::Ws, line));
        lemma_scan_from_whitespace(s, (i + 1) as nat, line);
        let token = plain_token(s, i, 1, TokenKind::Ws, line);
        match scan_from(s, (i + 1) as nat, line) {
            Ok(rest) => {
                let ts = seq![token] + rest;
                assert(ts.last() == rest.last());
                assert forall|k: int| 0 <= k < ts.len() - 1 implies ts[k].kind == TokenKind::Ws
                    by {
                    if k > 0 {
                        assert(ts[k] == rest[k - 1]);
                    }
                }
            },
            Err(e) => {},
        }
    }
}

/// Scanning input that consists solely of whitespace succeeds and yields one
/// `Ws` token per character, followed by exactly one `Eof` token.
pub proof fn lemma_whitespace_only_scan(s: Seq<char>)
    requires
        forall|k: int| 0 <= k < s.len() ==> is_space_char(s[k]),
    ensures
        match spec_scan(s) {
            Ok(ts) => ts.len() == s.len() + 1 && (forall|k: int|
                0 <= k < ts.len() - 1 ==> ts[k].kind == TokenKind::Ws) && ts.last().kind
                == TokenKind::Eof,
            Err(e) => false,
        },
{
    lemma_scan_from_whitespace(s, 0, 1);
}

/// A scan is a function of the input text alone: two scans of equal inputs,
/// however independently set up, yield identical outcomes.
pub proof fn lemma_scan_deterministic(s1: Seq<char>, s2: Seq<char>)
    requires
        s1 == s2,
    ensures
        spec_scan(s1) == spec_scan(s2),
{
}

/// Pushing a token on an accumulated prefix is the same as prepending the
/// one-token sequence first.
pub proof fn lemma_prepend_push(
    ts: Seq<TokenView>,
    t: TokenView,
    r: Result<Seq<TokenView>, ScanErrorView>,
)
    ensures
        prepend_tokens(ts.push(t), r) == prepend_tokens(ts, prepend_tokens(seq![t], r)),
{
    match r {
        Ok(rest) => {
            assert(ts.push(t) + rest =~= ts + (seq![t] + rest));
        },
        Err(e) => {},
    }
}

// ---------------------------------------------------------------------------
// Bounds of the run helpers and of one step
// ---------------------------------------------------------------------------

/// Where a digit run ends: within bounds, all digits before it, and a
/// non-digit (or the end of input) at it.
pub proof fn lemma_digit_run_end(s: Seq<char>, i: nat)
    requires
        i <= s.len(),
    ensures
        i <= digit_run_end(s, i) <= s.len(),
        forall|k: int| i <= k < digit_run_end(s, i) ==> is_digit_char(s[k]),
        digit_run_end(s, i) < s.len() ==> !is_digit_char(s[digit_run_end(s, i) as int]),
    decreases s.len() - i,
{
    if i < s.len() && is_digit_char(s[i as int]) {
        lemma_digit_run_end(s, (i + 1) as nat);
    }
}

/// Where an identifier run ends: within bounds, identifier characters before
/// it, and none (or the end of input) at it.
pub proof fn lemma_alnum_run_end(s: Seq<char>, i: nat)
    requires
        i <= s.len(),
    ensures
        i <= alnum_run_end(s, i) <= s.len(),
        forall|k: int| i <= k < alnum_run_end(s, i) ==> is_alnum_char(s[k]),
        alnum_run_end(s, i) < s.len() ==> !is_alnum_char(s[alnum_run_end(s, i) as int]),
    decreases s.len() - i,
{
    if i < s.len() && is_alnum_char(s[i as int]) {
        lemma_alnum_run_end(s, (i + 1) as nat);
    }
}

/// Where a comment ends: within bounds, no newline before it, and a newline
/// (or the end of input) at it.
pub proof fn lemma_comment_end(s: Seq<char>, i: nat)
    requires
        i <= s.len(),
    ensures
        i <= comment_end(s, i) <= s.len(),
        forall|k: int| i <= k < comment_end(s, i) ==> s[k] != '\n',
        comment_end(s, i) < s.len() ==> s[comment_end(s, i) as int] == '\n',
    decreases s.len() - i,
{
    if i < s.len() && s[i as int] != '\n' {
        lemma_comment_end(s, (i + 1) as nat);
    }
}

/// Where a string literal closes: within bounds, no quote before it, and a
/// quote (or the end of input) at it.
pub proof fn lemma_quote_end(s: Seq<char>, i: nat)
    requires
        i <= s.len(),
    ensures
        i <= quote_end(s, i) <= s.len(),
        forall|k: int| i <= k < quote_end(s, i) ==> s[k] != '"',
        quote_end(s, i) < s.len() ==> s[quote_end(s, i) as int] == '"',
    decreases s.len() - i,
{
    if i < s.len() && s[i as int] != '"' {
        lemma_quote_end(s, (i + 1) as nat);
    }
}

/// No single step emits an `Eof` token: `Eof` only ever comes from reaching
/// the end of the input.
pub proof fn lemma_step_not_eof(s: Seq<char>, i: nat, line: nat)
    requires
        i < s.len(),
    ensures
        match spec_step(s, i, line) {
            Step::Emit { token, next, line: l2 } => token.kind != TokenKind::Eof,
            Step::Skip { next, line: l2 } => true,
            Step::Fail { kind } => true,
        },
{
}

/// Every step taken on unconsumed input strictly advances the cursor and
/// stays within the input: scanning makes forward progress.
pub proof fn lemma_step_bounds(s: Seq<char>, i: nat, line: nat)
    requires
        i < s.len(),
    ensures
        match spec_step(s, i, line) {
            Step::Emit { token, next, line: l2 } => i < next <= s.len(),
            Step::Skip { next, line: l2 } => i < next <= s.len(),
            Step::Fail { kind } => true,
        },
{
    let c = s[i as int];
    if c == '/' && i + 1 < s.len() && s[i + 1 as int] == '/' {
        lemma_comment_end(s, (i + 2) as nat);
    } else if c == '"' {
        lemma_quote_end(s, (i + 1) as nat);
    } else if is_digit_char(c) {
        lemma_digit_run_end(s, (i + 1) as nat);
        let d1 = digit_run_end(s, (i + 1) as nat);
        if d1 + 1 < s.len() && s[d1 as int] == '.' && is_digit_char(s[d1 + 1 as int]) {
            lemma_digit_run_end(s, (d1 + 1) as nat);
        }
    } else if is_alpha_char(c) {
        lemma_alnum_run_end(s, (i + 1) as nat);
    }
}

} // verus!
