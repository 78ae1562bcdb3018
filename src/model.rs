//! The mathematical model of scanning: character classes, one lexeme at a
//! time, and the token and diagnostic sequences of a whole text, with the
//! laws they obey.
use vstd::prelude::*;
use crate::token::{KindView, TokenType, TokenView, keyword};

verus! {

/// A decimal digit.
pub open spec fn digit(c: char) -> bool {
    '0' <= c <= '9'
}

/// An ASCII letter or an underscore: what may start an identifier.
pub open spec fn alpha(c: char) -> bool {
    ('a' <= c <= 'z') || ('A' <= c <= 'Z') || c == '_'
}

/// What may continue an identifier.
pub open spec fn alphanumeric(c: char) -> bool {
    alpha(c) || digit(c)
}

/// The runs of characters that a lexeme can extend over.
#[derive(Clone, Copy, Debug, PartialEq, Eq)]
pub enum Run {
    /// The rest of an identifier or keyword.
    Alphanumeric,
    /// A sequence of decimal digits.
    Digits,
    /// The body of a line comment, up to the newline.
    LineBody,
    /// The body of a string literal, up to the closing quote.
    StringBody,
}

/// Whether `c` belongs to the run `r`.
pub open spec fn continues(r: Run, c: char) -> bool {
    match r {
        Run::Alphanumeric => alphanumeric(c),
        Run::Digits => digit(c),
        Run::LineBody => c != '\n',
        Run::StringBody => c != '"',
    }
}

/// The first index at or after `i` that ends the run `r` (or the end of `src`).
pub open spec fn run_end(src: Seq<char>, i: int, r: Run) -> int
    decreases src.len() - i,
{
    if 0 <= i < src.len() && continues(r, src[i]) {
        run_end(src, i + 1, r)
    } else {
        i
    }
}

/// The number of newline characters in `s`.
pub open spec fn newlines(s: Seq<char>) -> nat
    decreases s.len(),
{
    if s.len() == 0 {
        0
    } else {
        newlines(s.drop_last()) + if s.last() == '\n' { 1nat } else { 0nat }
    }
}

/// End of a number literal whose first digit is at `start`: its digits, then
/// a fraction only where a digit follows the dot.
pub open spec fn number_end(src: Seq<char>, start: int) -> int {
    let e = run_end(src, start + 1, Run::Digits);
    if e + 1 < src.len() && src[e] == '.' && digit(src[e + 1]) {
        run_end(src, e + 1, Run::Digits)
    } else {
        e
    }
}

/// The outcome of recognising one lexeme: where it ends, the line counter
/// after it, the kind of token it yields (if any) and the error it reports
/// (if any).
pub struct Step {
    pub end: int,
    pub line: nat,
    pub kind: Option<KindView>,
    pub message: Option<Seq<char>>,
}

pub open spec fn emit(end: int, line: nat, t: TokenType) -> Step {
    Step { end, line, kind: Some(KindView::Plain(t)), message: None }
}

pub open spec fn skip(end: int, line: nat) -> Step {
    Step { end, line, kind: None, message: None }
}

/// A one- or two-character operator: the long form where `=` follows.
pub open spec fn with_equal(src: Seq<char>, s: int, line: nat, short: TokenType, long: TokenType) -> Step {
    if s + 1 < src.len() && src[s + 1] == '=' {
        emit(s + 2, line, long)
    } else {
        emit(s + 1, line, short)
    }
}

/// Recognises the lexeme that starts at `s`, with the line counter at `line`.
pub open spec fn step(src: Seq<char>, s: int, line: nat) -> Step {
    let c = src[s];
    if c == '(' {
        emit(s + 1, line, TokenType::LeftParen)
    } else if c == ')' {
        emit(s + 1, line, TokenType::RightParen)
    } else if c == '{' {
        emit(s + 1, line, TokenType::LeftBrace)
    } else if c == '}' {
        emit(s + 1, line, TokenType::RightBrace)
    } else if c == ',' {
        emit(s + 1, line, TokenType::Comma)
    } else if c == '.' {
        emit(s + 1, line, TokenType::Dot)
    } else if c == '-' {
        emit(s + 1, line, TokenType::Minus)
    } else if c == '+' {
        emit(s + 1, line, TokenType::Plus)
    } else if c == ';' {
        emit(s + 1, line, TokenType::Semicolon)
    } else if c == '*' {
        emit(s + 1, line, TokenType::Star)
    } else if c == '!' {
        with_equal(src, s, line, TokenType::Bang, TokenType::BangEqual)
    } else if c == '=' {
        with_equal(src, s, line, TokenType::Equal, TokenType::EqualEqual)
    } else if c == '<' {
        with_equal(src, s, line, TokenType::Less, TokenType::LessEqual)
    } else if c == '>' {
        with_equal(src, s, line, TokenType::Greater, TokenType::GreaterEqual)
    } else if c == '/' {
        if s + 1 < src.len() && src[s + 1] == '/' {
            skip(run_end(src, s + 2, Run::LineBody), line)
        } else {
            emit(s + 1, line, TokenType::Slash)
        }
    } else if c == ' ' || c == '\r' || c == '\t' {
        skip(s + 1, line)
    } else if c == '\n' {
        skip(s + 1, line + 1)
    } else if c == '"' {
        let e = run_end(src, s + 1, Run::StringBody);
        let l = line + newlines(src.subrange(s + 1, e));
        if e < src.len() {
            Step { end: e + 1, line: l, kind: Some(KindView::Str(src.subrange(s + 1, e))), message: None }
        } else {
            Step { end: e, line: l, kind: None, message: Some("Unterminated string."@) }
        }
    } else if digit(c) {
        let e = number_end(src, s);
        Step { end: e, line, kind: Some(KindView::Number(src.subrange(s, e))), message: None }
    } else if alpha(c) {
        let e = run_end(src, s + 1, Run::Alphanumeric);
        let w = src.subrange(s, e);
        let kind = match keyword(w) {
            Some(k) => KindView::Plain(k),
            None => KindView::Identifier(w),
        };
        Step { end: e, line, kind: Some(kind), message: None }
    } else {
        Step { end: s + 1, line, kind: None, message: Some("Unexpected character."@) }
    }
}

/// A diagnostic as a value: the line and the message.
pub type DiagnosticView = (nat, Seq<char>);

/// What scanning from some position yields: the tokens, the diagnostics and
/// the line counter at the end.
pub struct ScanView {
    pub tokens: Seq<TokenView>,
    pub diagnostics: Seq<DiagnosticView>,
    pub line: nat,
}

/// The token that the lexeme at `s` yields, if any.
pub open spec fn token_at(src: Seq<char>, s: int, st: Step) -> Seq<TokenView> {
    match st.kind {
        Some(k) => seq![TokenView { kind: k, lexeme: src.subrange(s, st.end), line: st.line }],
        None => seq![],
    }
}

/// The diagnostic that the lexeme yields, if any.
pub open spec fn diagnostic_at(st: Step) -> Seq<DiagnosticView> {
    match st.message {
        Some(m) => seq![(st.line, m)],
        None => seq![],
    }
}

/// Scans `src` from `pos` to its end, with the line counter at `line`.
pub open spec fn scan_from(src: Seq<char>, pos: int, line: nat) -> ScanView
    decreases src.len() - pos,
    via scan_from_decreases
{
    if 0 <= pos < src.len() {
        let st = step(src, pos, line);
        let rest = scan_from(src, st.end, st.line);
        ScanView {
            tokens: token_at(src, pos, st) + rest.tokens,
            diagnostics: diagnostic_at(st) + rest.diagnostics,
            line: rest.line,
        }
    } else {
        ScanView { tokens: seq![], diagnostics: seq![], line }
    }
}

#[via_fn]
proof fn scan_from_decreases(src: Seq<char>, pos: int, line: nat) {
    if 0 <= pos < src.len() {
        lemma_step_advances(src, pos, line);
    }
}

/// The end-marker token, stamped with `line`.
pub open spec fn end_marker(line: nat) -> TokenView {
    TokenView { kind: KindView::Plain(TokenType::Eof), lexeme: seq![], line }
}

/// The tokens of a whole source text, ending with the end-marker.
pub open spec fn tokens_of(src: Seq<char>) -> Seq<TokenView> {
    let r = scan_from(src, 0, 1);
    r.tokens.push(end_marker(r.line))
}

/// The diagnostics reported while scanning a whole source text.
pub open spec fn diagnostics_of(src: Seq<char>) -> Seq<DiagnosticView> {
    scan_from(src, 0, 1).diagnostics
}

/// A run starts where it is asked to and ends within the text, on a
/// character that does not belong to it.
pub proof fn lemma_run_end(src: Seq<char>, i: int, r: Run)
    requires
        0 <= i <= src.len(),
    ensures
        i <= run_end(src, i, r) <= src.len(),
        run_end(src, i, r) < src.len() ==> !continues(r, src[run_end(src, i, r)]),
    decreases src.len() - i,
{
    if i < src.len() && continues(r, src[i]) {
        lemma_run_end(src, i + 1, r);
    }
}

/// Every lexeme consumes at least one character and stays within the text.
pub proof fn lemma_step_advances(src: Seq<char>, s: int, line: nat)
    requires
        0 <= s < src.len(),
    ensures
        s < step(src, s, line).end <= src.len(),
{
    lemma_run_end(src, s + 1, Run::Alphanumeric);
    lemma_run_end(src, s + 1, Run::Digits);
    lemma_run_end(src, s + 1, Run::StringBody);
    let e = run_end(src, s + 1, Run::Digits);
    if e + 1 < src.len() {
        lemma_run_end(src, e + 1, Run::Digits);
    }
    if s + 2 <= src.len() {
        lemma_run_end(src, s + 2, Run::LineBody);
    }
}

/// A single-character punctuation mark.
pub open spec fn punctuation(c: char) -> bool {
    c == '(' || c == ')' || c == '{' || c == '}' || c == ',' || c == '.' || c == '-' || c == '+'
        || c == ';' || c == '*'
}

/// A blank: space, carriage return, tab or newline.
pub open spec fn blank(c: char) -> bool {
    c == ' ' || c == '\r' || c == '\t' || c == '\n'
}

/// The number of characters of `s` that are not blank.
pub open spec fn non_blank_count(s: Seq<char>) -> nat
    decreases s.len(),
{
    if s.len() == 0 {
        0
    } else {
        non_blank_count(s.subrange(1, s.len() as int)) + if blank(s[0]) { 0nat } else { 1nat }
    }
}

/// Scanning always ends with exactly one end-marker, which has an empty
/// lexeme; no other token is an end-marker.
pub proof fn lemma_ends_with_end_marker(src: Seq<char>)
    ensures
        tokens_of(src).len() >= 1,
        tokens_of(src).last().kind == KindView::Plain(TokenType::Eof),
        tokens_of(src).last().lexeme.len() == 0,
        forall|i: int|
            0 <= i < tokens_of(src).len() - 1 ==> tokens_of(src)[i].kind != KindView::Plain(
                TokenType::Eof,
            ),
{
    lemma_no_end_marker_inside(src, 0, 1);
}

/// No lexeme yields an end-marker.
proof fn lemma_no_end_marker_inside(src: Seq<char>, pos: int, line: nat)
    ensures
        forall|i: int|
            0 <= i < scan_from(src, pos, line).tokens.len() ==> scan_from(src, pos, line).tokens[i].kind
                != KindView::Plain(TokenType::Eof),
    decreases src.len() - pos,
{
    if 0 <= pos < src.len() {
        let st = step(src, pos, line);
        lemma_step_advances(src, pos, line);
        lemma_no_end_marker_inside(src, st.end, st.line);
        let rest = scan_from(src, st.end, st.line);
        assert forall|i: int| 0 <= i < scan_from(src, pos, line).tokens.len() implies scan_from(src, pos, line).tokens[i].kind
            != KindView::Plain(TokenType::Eof) by {
            if i >= token_at(src, pos, st).len() {
                assert(scan_from(src, pos, line).tokens[i] == rest.tokens[i - token_at(src, pos, st).len()]);
            }
        }
    }
}

/// On a text made of single-character punctuation and blanks only, every
/// non-blank character yields one token with a one-character lexeme.
pub proof fn lemma_punctuation_tokens(src: Seq<char>)
    requires
        forall|i: int| 0 <= i < src.len() ==> punctuation(src[i]) || blank(src[i]),
    ensures
        tokens_of(src).len() - 1 == non_blank_count(src),
        forall|i: int| 0 <= i < tokens_of(src).len() - 1 ==> tokens_of(src)[i].lexeme.len() == 1,
{
    lemma_punctuation_from(src, 0, 1);
    assert(src.subrange(0, src.len() as int) =~= src);
}

proof fn lemma_punctuation_from(src: Seq<char>, pos: int, line: nat)
    requires
        0 <= pos <= src.len(),
        forall|i: int| 0 <= i < src.len() ==> punctuation(src[i]) || blank(src[i]),
    ensures
        scan_from(src, pos, line).tokens.len() == non_blank_count(src.subrange(pos, src.len() as int)),
        forall|i: int|
            0 <= i < scan_from(src, pos, line).tokens.len() ==> scan_from(src, pos, line).tokens[i].lexeme.len() == 1,
    decreases src.len() - pos,
{
    let s = src.subrange(pos, src.len() as int);
    if pos < src.len() {
        let st = step(src, pos, line);
        assert(st.end == pos + 1);
        lemma_punctuation_from(src, pos + 1, st.line);
        assert(s.subrange(1, s.len() as int) =~= src.subrange(pos + 1, src.len() as int));
        let rest = scan_from(src, pos + 1, st.line);
        let here = token_at(src, pos, st);
        assert(here.len() == if blank(src[pos]) { 0int } else { 1int });
        assert forall|i: int| 0 <= i < scan_from(src, pos, line).tokens.len() implies scan_from(src, pos, line).tokens[i].lexeme.len() == 1 by {
            if i >= here.len() {
                assert(scan_from(src, pos, line).tokens[i] == rest.tokens[i - here.len()]);
            }
        }
    }
}

/// Scanning is a function of the text alone: two scans of the same text
/// yield the same tokens and the same diagnostics.
pub proof fn lemma_scan_repeatable(a: Seq<char>, b: Seq<char>)
    requires
        a == b,
    ensures
        tokens_of(a) == tokens_of(b),
        diagnostics_of(a) == diagnostics_of(b),
{
}

} // verus!
