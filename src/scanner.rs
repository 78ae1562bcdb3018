//! The scanner: a cursor over a source text that produces its tokens and
//! diagnostics, proved to agree with the model.
use vstd::prelude::*;
use crate::{error, Diagnostic};
use crate::model::{
    alpha, alphanumeric, continues, diagnostic_at, digit, end_marker, newlines, number_end, run_end,
    scan_from, step, token_at, tokens_of, diagnostics_of, DiagnosticView, Run, Step,
};
use crate::token::{get_keyword_token, string_from_chars, Token, TokenType, TokenView};

verus! {

/// Whether `c` is a decimal digit.
pub fn is_digit(c: char) -> (r: bool)
    ensures
        r == digit(c),
{
    '0' <= c && c <= '9'
}

/// Whether `c` may start an identifier.
pub fn is_alpha(c: char) -> (r: bool)
    ensures
        r == alpha(c),
{
    ('a' <= c && c <= 'z') || ('A' <= c && c <= 'Z') || c == '_'
}

/// Whether `c` may continue an identifier.
pub fn is_alphanumeric(c: char) -> (r: bool)
    ensures
        r == alphanumeric(c),
{
    is_alpha(c) || is_digit(c)
}

/// Whether `c` belongs to the run `r`.
fn run_continues(r: Run, c: char) -> (b: bool)
    ensures
        b == continues(r, c),
{
    match r {
        Run::Alphanumeric => is_alphanumeric(c),
        Run::Digits => is_digit(c),
        Run::LineBody => c != '\n',
        Run::StringBody => c != '"',
    }
}

/// The views of a run of tokens.
pub open spec fn token_views(ts: Seq<Token>) -> Seq<TokenView> {
    ts.map_values(|t: Token| t@)
}

/// The views of a run of diagnostics.
pub open spec fn diagnostic_views(ds: Seq<Diagnostic>) -> Seq<DiagnosticView> {
    ds.map_values(|d: Diagnostic| d@)
}

/// A newline count never exceeds the length of the text.
proof fn lemma_newlines_bound(s: Seq<char>)
    ensures
        newlines(s) <= s.len(),
    decreases s.len(),
{
    if s.len() > 0 {
        lemma_newlines_bound(s.drop_last());
    }
}

/// A cursor over one source text that turns it into tokens, recording the
/// problems it meets on the way.
pub struct Scanner {
    chars: Vec<char>,
    start: usize,
    current: usize,
    line: usize,
    tokens: Vec<Token>,
    diagnostics: Vec<Diagnostic>,
}

impl Scanner {
    /// The source text, as characters.
    pub closed spec fn source(&self) -> Seq<char> {
        self.chars@
    }

    /// The read head: the index of the next character to consume.
    pub closed spec fn position(&self) -> int {
        self.current as int
    }

    /// The start mark: where the lexeme being recognised begins.
    pub closed spec fn mark(&self) -> int {
        self.start as int
    }

    /// The line counter.
    pub closed spec fn line_count(&self) -> nat {
        self.line as nat
    }

    /// The tokens produced so far.
    pub closed spec fn tokens_view(&self) -> Seq<TokenView> {
        token_views(self.tokens@)
    }

    /// The diagnostics recorded so far.
    pub closed spec fn diagnostics_view(&self) -> Seq<DiagnosticView> {
        diagnostic_views(self.diagnostics@)
    }

    /// The cursor lies within the text, and the line counter is at least one
    /// and at most one more than the characters consumed.
    pub closed spec fn wf(&self) -> bool {
        &&& self.start <= self.current <= self.chars.len()
        &&& 1 <= self.line <= self.current + 1
    }

    pub fn new(source: &str) -> (r: Scanner)
        ensures
            r.wf(),
            r.source() == source@,
            r.position() == 0,
            r.line_count() == 1,
            r.tokens_view() == Seq::<TokenView>::empty(),
            r.diagnostics_view() == Seq::<DiagnosticView>::empty(),
    {
        let mut chars: Vec<char> = Vec::new();
        for c in it: source.chars()
            invariant
                chars@ == it.seq().take(it.index() as int),
        {
            chars.push(c);
        }
        let r = Scanner { chars, start: 0, current: 0, line: 1, tokens: Vec::new(), diagnostics: Vec::new() };
        assert(r.tokens_view() =~= Seq::<TokenView>::empty());
        assert(r.diagnostics_view() =~= Seq::<DiagnosticView>::empty());
        r
    }
    /// Whether the read head has reached the end of the text.
    pub fn is_at_end(&self) -> (r: bool)
        ensures
            r == (self.position() >= self.source().len()),
    {
        self.current >= self.chars.len()
    }

    /// Consumes and returns the next character; at the end of the text
    /// returns the null character and consumes nothing.
    pub fn advance(&mut self) -> (r: char)
        requires
            old(self).wf(),
        ensures
            final(self).wf(),
            final(self).source() == old(self).source(),
            final(self).line_count() == old(self).line_count(),
            final(self).tokens_view() == old(self).tokens_view(),
            final(self).diagnostics_view() == old(self).diagnostics_view(),
            old(self).position() < old(self).source().len() ==> r == old(self).source()[old(self).position()]
                && final(self).position() == old(self).position() + 1,
            old(self).position() >= old(self).source().len() ==> r == '\0' && final(self).position()
                == old(self).position(),
            final(self).mark() == old(self).mark(),
    {
        if self.current >= self.chars.len() {
            return '\0';
        }
        let c = self.chars[self.current];
        self.current = self.current + 1;
        c
    }

    /// The next character, not consumed; the null character at the end.
    fn peek(&self) -> (r: char)
        ensures
            r == if self.current < self.chars.len() { self.chars@[self.current as int] } else { '\0' },
    {
        if self.current >= self.chars.len() {
            return '\0';
        }
        self.chars[self.current]
    }

    /// The character after the next one, not consumed; the null character
    /// where there is none.
    fn peek_next(&self) -> (r: char)
        ensures
            r == if self.current + 1 < self.chars.len() {
                self.chars@[self.current + 1]
            } else {
                '\0'
            },
    {
        if self.current >= self.chars.len() || self.current + 1 >= self.chars.len() {
            return '\0';
        }
        self.chars[self.current + 1]
    }

    /// Consumes the next character only where it is `expected`.
    fn matches(&mut self, expected: char) -> (r: bool)
        requires
            old(self).wf(),
        ensures
            final(self).wf(),
            r == (old(self).current < old(self).chars.len() && old(self).chars@[old(self).current as int]
                == expected),
            final(self).current == if r { old(self).current + 1 } else { old(self).current as int },
            final(self).chars == old(self).chars,
            final(self).start == old(self).start,
            final(self).line == old(self).line,
            final(self).tokens == old(self).tokens,
            final(self).diagnostics == old(self).diagnostics,
    {
        if self.current >= self.chars.len() {
            return false;
        }
        if self.chars[self.current] != expected {
            return false;
        }
        self.current = self.current + 1;
        true
    }

    /// Appends a token of kind `token_type` for the lexeme between the start
    /// mark and the read head.
    fn add_token(&mut self, token_type: TokenType)
        requires
            old(self).wf(),
        ensures
            final(self).wf(),
            final(self).chars == old(self).chars,
            final(self).start == old(self).start,
            final(self).current == old(self).current,
            final(self).line == old(self).line,
            final(self).diagnostics == old(self).diagnostics,
            final(self).tokens_view() == old(self).tokens_view() + seq![
                TokenView {
                    kind: token_type@,
                    lexeme: old(self).chars@.subrange(old(self).start as int, old(self).current as int),
                    line: old(self).line as nat,
                },
            ],
    {
        let lexeme = string_from_chars(&self.chars.as_slice()[self.start..self.current]);
        let t = Token { token_type, lexeme, line: self.line };
        self.tokens.push(t);
        assert(self.tokens_view() =~= old(self).tokens_view() + seq![t@]);
    }

    /// Records an error at the current line.
    fn report(&mut self, message: &str)
        requires
            old(self).wf(),
        ensures
            final(self).wf(),
            final(self).chars == old(self).chars,
            final(self).start == old(self).start,
            final(self).current == old(self).current,
            final(self).line == old(self).line,
            final(self).tokens == old(self).tokens,
            final(self).diagnostics_view() == old(self).diagnostics_view() + seq![
                (old(self).line as nat, message@),
            ],
    {
        let d = error(self.line, message);
        self.diagnostics.push(d);
        assert(self.diagnostics_view() =~= old(self).diagnostics_view() + seq![d@]);
    }
    /// `after` is `before` once the lexeme at its start mark has been
    /// recognised with outcome `st`.
    spec fn stepped(before: Scanner, after: Scanner, st: Step) -> bool {
        &&& after.wf()
        &&& after.chars@ == before.chars@
        &&& after.start == before.start
        &&& after.current == st.end
        &&& after.line == st.line
        &&& after.tokens_view() == before.tokens_view() + token_at(before.chars@, before.start as int, st)
        &&& after.diagnostics_view() == before.diagnostics_view() + diagnostic_at(st)
    }

    /// Recognises a string literal whose opening quote was just consumed.
    fn scan_string_literal(&mut self)
        requires
            old(self).wf(),
            old(self).chars.len() < usize::MAX,
            old(self).current == old(self).start + 1,
            old(self).line <= old(self).start + 1,
            old(self).chars@[old(self).start as int] == '"',
        ensures
            Self::stepped(*old(self), *final(self), step(old(self).chars@, old(self).start as int, old(self).line as nat)),
    {
        let ghost src = self.chars@;
        let ghost s = self.start as int;
        let ghost line0 = self.line as nat;
        let ghost e = run_end(src, s + 1, Run::StringBody);
        proof {
            crate::model::lemma_run_end(src, s + 1, Run::StringBody);
            assert(src.subrange(s + 1, s + 1) =~= Seq::<char>::empty());
        }
        while self.peek() != '"' && !self.is_at_end()
            invariant
                self.wf(),
                self.chars@ == src,
                self.start == s,
                src.len() < usize::MAX,
                s + 1 <= self.current <= e,
                run_end(src, self.current as int, Run::StringBody) == e,
                self.line == line0 + newlines(src.subrange(s + 1, self.current as int)),
                line0 <= s + 1,
                self.tokens_view() == old(self).tokens_view(),
                self.diagnostics_view() == old(self).diagnostics_view(),
            decreases src.len() - self.current,
        {
            let ghost cur = self.current as int;
            proof {
                assert(run_end(src, cur, Run::StringBody) == run_end(src, cur + 1, Run::StringBody));
                crate::model::lemma_run_end(src, cur + 1, Run::StringBody);
                assert(src.subrange(s + 1, cur + 1).drop_last() =~= src.subrange(s + 1, cur));
                lemma_newlines_bound(src.subrange(s + 1, cur));
            }
            if self.peek() == '\n' {
                self.line = self.line + 1;
            }
            self.advance();
        }
        proof {
            lemma_newlines_bound(src.subrange(s + 1, self.current as int));
            assert(run_end(src, self.current as int, Run::StringBody) == self.current);
        }
        if self.is_at_end() {
            self.report("Unterminated string.");
            assert(self.tokens_view() =~= old(self).tokens_view() + Seq::<TokenView>::empty());
            return;
        }
        self.advance();
        let value = string_from_chars(&self.chars.as_slice()[self.start + 1..self.current - 1]);
        self.add_token(TokenType::String(value));
    }
    /// Consumes characters while they belong to `r`, up to where the run
    /// ends.
    fn skip_run(&mut self, r: Run)
        requires
            old(self).wf(),
        ensures
            final(self).wf(),
            final(self).chars@ == old(self).chars@,
            final(self).start == old(self).start,
            final(self).line == old(self).line,
            final(self).tokens_view() == old(self).tokens_view(),
            final(self).diagnostics_view() == old(self).diagnostics_view(),
            final(self).current == run_end(old(self).chars@, old(self).current as int, r),
    {
        let ghost src = self.chars@;
        let ghost e = run_end(src, self.current as int, r);
        proof {
            crate::model::lemma_run_end(src, self.current as int, r);
        }
        while self.current < self.chars.len() && run_continues(r, self.chars[self.current])
            invariant
                self.wf(),
                self.chars@ == src,
                self.start == old(self).start,
                self.line == old(self).line,
                old(self).current <= self.current <= e,
                run_end(src, self.current as int, r) == e,
                self.tokens_view() == old(self).tokens_view(),
                self.diagnostics_view() == old(self).diagnostics_view(),
            decreases src.len() - self.current,
        {
            proof {
                crate::model::lemma_run_end(src, self.current + 1, r);
            }
            self.advance();
        }
    }

    /// Recognises a number literal whose first digit was just consumed.
    fn scan_number_literal(&mut self)
        requires
            old(self).wf(),
            old(self).current == old(self).start + 1,
            digit(old(self).chars@[old(self).start as int]),
        ensures
            Self::stepped(*old(self), *final(self), step(old(self).chars@, old(self).start as int, old(self).line as nat)),
    {
        let ghost src = self.chars@;
        self.skip_run(Run::Digits);
        if self.peek() == '.' && is_digit(self.peek_next()) {
            self.advance();
            self.skip_run(Run::Digits);
        }
        assert(self.current == number_end(src, self.start as int));
        let text = string_from_chars(&self.chars.as_slice()[self.start..self.current]);
        self.add_token(TokenType::Number(text));
    }

    /// Recognises an identifier or keyword whose first character was just
    /// consumed.
    fn scan_identifier(&mut self)
        requires
            old(self).wf(),
            old(self).current == old(self).start + 1,
            alpha(old(self).chars@[old(self).start as int]),
        ensures
            Self::stepped(*old(self), *final(self), step(old(self).chars@, old(self).start as int, old(self).line as nat)),
    {
        self.skip_run(Run::Alphanumeric);
        let word = &self.chars.as_slice()[self.start..self.current];
        match get_keyword_token(word) {
            None => {
                let name = string_from_chars(word);
                self.add_token(TokenType::Identifier(name));
            },
            Some(token_type) => self.add_token(token_type),
        }
    }
    /// Recognises the lexeme at the start mark, appending the token or the
    /// diagnostic it yields, if any.
    fn scan_token(&mut self)
        requires
            old(self).wf(),
            old(self).start == old(self).current,
            old(self).current < old(self).chars.len(),
            old(self).chars.len() < usize::MAX,
        ensures
            Self::stepped(*old(self), *final(self), step(old(self).chars@, old(self).start as int, old(self).line as nat)),
    {
        let c = self.advance();
        match c {
            '(' => self.add_token(TokenType::LeftParen),
            ')' => self.add_token(TokenType::RightParen),
            '{' => self.add_token(TokenType::LeftBrace),
            '}' => self.add_token(TokenType::RightBrace),
            ',' => self.add_token(TokenType::Comma),
            '.' => self.add_token(TokenType::Dot),
            '-' => self.add_token(TokenType::Minus),
            '+' => self.add_token(TokenType::Plus),
            ';' => self.add_token(TokenType::Semicolon),
            '*' => self.add_token(TokenType::Star),
            '!' => {
                if self.matches('=') {
                    self.add_token(TokenType::BangEqual)
                } else {
                    self.add_token(TokenType::Bang)
                }
            },
            '=' => {
                if self.matches('=') {
                    self.add_token(TokenType::EqualEqual)
                } else {
                    self.add_token(TokenType::Equal)
                }
            },
            '<' => {
                if self.matches('=') {
                    self.add_token(TokenType::LessEqual)
                } else {
                    self.add_token(TokenType::Less)
                }
            },
            '>' => {
                if self.matches('=') {
                    self.add_token(TokenType::GreaterEqual)
                } else {
                    self.add_token(TokenType::Greater)
                }
            },
            '/' => {
                if self.matches('/') {
                    // A comment goes until the end of the line.
                    self.skip_run(Run::LineBody);
                    assert(self.tokens_view() =~= old(self).tokens_view() + Seq::<TokenView>::empty());
                    assert(self.diagnostics_view() =~= old(self).diagnostics_view() + Seq::<DiagnosticView>::empty());
                } else {
                    self.add_token(TokenType::Slash)
                }
            },
            ' ' | '\r' | '\t' => {
                assert(self.tokens_view() =~= old(self).tokens_view() + Seq::<TokenView>::empty());
                assert(self.diagnostics_view() =~= old(self).diagnostics_view() + Seq::<DiagnosticView>::empty());
            },
            '\n' => {
                self.line = self.line + 1;
                assert(self.tokens_view() =~= old(self).tokens_view() + Seq::<TokenView>::empty());
                assert(self.diagnostics_view() =~= old(self).diagnostics_view() + Seq::<DiagnosticView>::empty());
            },
            '"' => self.scan_string_literal(),
            _ => {
                if is_digit(c) {
                    self.scan_number_literal();
                } else if is_alpha(c) {
                    self.scan_identifier();
                } else {
                    self.report("Unexpected character.");
                    assert(self.tokens_view() =~= old(self).tokens_view() + Seq::<TokenView>::empty());
                }
            },
        }
    }

    /// Scans the rest of the text and appends the end-marker; returns every
    /// token produced.
    pub fn scan_tokens(&mut self) -> (r: &Vec<Token>)
        requires
            old(self).wf(),
            old(self).source().len() < usize::MAX,
        ensures
            final(self).wf(),
            final(self).source() == old(self).source(),
            final(self).position() == old(self).source().len(),
            ({
                let rest = scan_from(old(self).source(), old(self).position(), old(self).line_count());
                &&& final(self).tokens_view() == old(self).tokens_view() + rest.tokens.push(end_marker(rest.line))
                &&& final(self).diagnostics_view() == old(self).diagnostics_view() + rest.diagnostics
                &&& final(self).line_count() == rest.line
            }),
            token_views(r@) == final(self).tokens_view(),
    {
        let ghost src = self.chars@;
        let ghost all = scan_from(src, self.current as int, self.line as nat);
        proof {
            assert(old(self).tokens_view() + all.tokens =~= old(self).tokens_view() + all.tokens);
        }
        while !self.is_at_end()
            invariant
                self.wf(),
                self.chars@ == src,
                src.len() < usize::MAX,
                ({
                    let rest = scan_from(src, self.current as int, self.line as nat);
                    &&& self.tokens_view() + rest.tokens == old(self).tokens_view() + all.tokens
                    &&& self.diagnostics_view() + rest.diagnostics == old(self).diagnostics_view() + all.diagnostics
                    &&& rest.line == all.line
                }),
            decreases src.len() - self.current,
        {
            let ghost before = *self;
            self.start = self.current;
            self.scan_token();
            proof {
                let st = step(src, before.current as int, before.line as nat);
                crate::model::lemma_step_advances(src, before.current as int, before.line as nat);
                let rest = scan_from(src, self.current as int, self.line as nat);
                assert(self.tokens_view() + rest.tokens =~= before.tokens_view() + (token_at(src, before.current as int, st) + rest.tokens));
                assert(self.diagnostics_view() + rest.diagnostics =~= before.diagnostics_view() + (diagnostic_at(st) + rest.diagnostics));
            }
        }
        let eof = Token { token_type: TokenType::Eof, lexeme: String::new(), line: self.line };
        let ghost mid = self.tokens_view();
        self.tokens.push(eof);
        proof {
            assert(eof@ == end_marker(all.line));
            assert(self.tokens_view() =~= mid.push(eof@));
            assert(old(self).tokens_view() + all.tokens.push(end_marker(all.line)) =~= (old(self).tokens_view() + all.tokens).push(end_marker(all.line)));
            assert(all.tokens =~= all.tokens + Seq::<TokenView>::empty());
            assert(mid =~= old(self).tokens_view() + all.tokens);
            assert(self.diagnostics_view() =~= old(self).diagnostics_view() + all.diagnostics);
        }
        &self.tokens
    }

    /// The diagnostics recorded so far.
    pub fn diagnostics(&self) -> (r: &Vec<Diagnostic>)
        ensures
            diagnostic_views(r@) == self.diagnostics_view(),
    {
        &self.diagnostics
    }
}

/// Scans a whole source text: its tokens, ending with the end-marker, and the
/// diagnostics met on the way, in order.
pub fn scan_all(source: &str) -> (r: (Vec<Token>, Vec<Diagnostic>))
    requires
        source@.len() < usize::MAX,
    ensures
        token_views(r.0@) == tokens_of(source@),
        diagnostic_views(r.1@) == diagnostics_of(source@),
{
    let mut scanner = Scanner::new(source);
    scanner.scan_tokens();
    proof {
        assert(Seq::<TokenView>::empty() + scan_from(source@, 0, 1).tokens.push(end_marker(scan_from(source@, 0, 1).line))
            =~= tokens_of(source@));
        assert(Seq::<DiagnosticView>::empty() + scan_from(source@, 0, 1).diagnostics =~= diagnostics_of(source@));
    }
    let Scanner { tokens, diagnostics, .. } = scanner;
    (tokens, diagnostics)
}

} // verus!
