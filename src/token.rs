//! Tokens, their kinds, the keyword table and how tokens are shown.
use vstd::prelude::*;

verus! {

/// Builds a string from a run of characters.
///
/// Relies on `String::from_iter` over chars: the string holds exactly those
/// characters, in order.
#[verifier::external_body]
pub(crate) fn string_from_chars(cs: &[char]) -> (r: String)
    ensures
        r@ == cs@,
{
    String::from_iter(cs.iter())
}

/// The kind of a token. Literal kinds carry their payload; a number carries
/// the decimal text it was written as.
#[derive(Debug, Clone, PartialEq)]
pub enum TokenType {
    // Single-character tokens
    LeftParen,
    RightParen,
    LeftBrace,
    RightBrace,
    Comma,
    Dot,
    Minus,
    Plus,
    Semicolon,
    Slash,
    Star,
    // One or two character tokens
    Bang,
    BangEqual,
    Equal,
    EqualEqual,
    Greater,
    GreaterEqual,
    Less,
    LessEqual,
    // Literals
    Identifier(String),
    String(String),
    Number(String),
    // Keywords
    And,
    Class,
    Else,
    False,
    Fun,
    For,
    If,
    Nil,
    Or,
    Print,
    Return,
    Super,
    This,
    True,
    Var,
    While,
    Eof,
}

/// Mathematical view of a token kind: payloads become character sequences;
/// a kind without payload stands for itself.
pub enum KindView {
    Plain(TokenType),
    Identifier(Seq<char>),
    Str(Seq<char>),
    Number(Seq<char>),
}

impl View for TokenType {
    type V = KindView;

    open spec fn view(&self) -> KindView {
        match self {
            TokenType::Identifier(s) => KindView::Identifier(s@),
            TokenType::String(s) => KindView::Str(s@),
            TokenType::Number(s) => KindView::Number(s@),
            _ => KindView::Plain(*self),
        }
    }
}

impl TokenType {
    /// How a kind is shown: its symbol or reserved word, the payload of a
    /// literal (a number as the decimal text it was written as), and a fixed
    /// placeholder for the end-marker.
    pub open spec fn text(self) -> Seq<char> {
        match self {
            TokenType::LeftParen => "("@,
            TokenType::RightParen => ")"@,
            TokenType::LeftBrace => "{"@,
            TokenType::RightBrace => "}"@,
            TokenType::Comma => ","@,
            TokenType::Dot => "."@,
            TokenType::Minus => "-"@,
            TokenType::Plus => "+"@,
            TokenType::Semicolon => ";"@,
            TokenType::Slash => "/"@,
            TokenType::Star => "*"@,
            TokenType::Bang => "!"@,
            TokenType::BangEqual => "!="@,
            TokenType::Equal => "="@,
            TokenType::EqualEqual => "=="@,
            TokenType::Greater => ">"@,
            TokenType::GreaterEqual => ">="@,
            TokenType::Less => "<"@,
            TokenType::LessEqual => "<="@,
            TokenType::Identifier(s) => s@,
            TokenType::String(s) => s@,
            TokenType::Number(s) => s@,
            TokenType::And => "and"@,
            TokenType::Class => "class"@,
            TokenType::Else => "else"@,
            TokenType::False => "false"@,
            TokenType::Fun => "fun"@,
            TokenType::For => "for"@,
            TokenType::If => "if"@,
            TokenType::Nil => "nil"@,
            TokenType::Or => "or"@,
            TokenType::Print => "print"@,
            TokenType::Return => "return"@,
            TokenType::Super => "super"@,
            TokenType::This => "this"@,
            TokenType::True => "true"@,
            TokenType::Var => "var"@,
            TokenType::While => "while"@,
            TokenType::Eof => "\\d"@,
        }
    }

    /// The text that shows this kind.
    pub fn display_text(&self) -> (r: String)
        ensures
            r@ == self.text(),
    {
        match self {
            TokenType::LeftParen => "(".to_owned(),
            TokenType::RightParen => ")".to_owned(),
            TokenType::LeftBrace => "{".to_owned(),
            TokenType::RightBrace => "}".to_owned(),
            TokenType::Comma => ",".to_owned(),
            TokenType::Dot => ".".to_owned(),
            TokenType::Minus => "-".to_owned(),
            TokenType::Plus => "+".to_owned(),
            TokenType::Semicolon => ";".to_owned(),
            TokenType::Slash => "/".to_owned(),
            TokenType::Star => "*".to_owned(),
            TokenType::Bang => "!".to_owned(),
            TokenType::BangEqual => "!=".to_owned(),
            TokenType::Equal => "=".to_owned(),
            TokenType::EqualEqual => "==".to_owned(),
            TokenType::Greater => ">".to_owned(),
            TokenType::GreaterEqual => ">=".to_owned(),
            TokenType::Less => "<".to_owned(),
            TokenType::LessEqual => "<=".to_owned(),
            TokenType::Identifier(s) => s.clone(),
            TokenType::String(s) => s.clone(),
            TokenType::Number(s) => s.clone(),
            TokenType::And => "and".to_owned(),
            TokenType::Class => "class".to_owned(),
            TokenType::Else => "else".to_owned(),
            TokenType::False => "false".to_owned(),
            TokenType::Fun => "fun".to_owned(),
            TokenType::For => "for".to_owned(),
            TokenType::If => "if".to_owned(),
            TokenType::Nil => "nil".to_owned(),
            TokenType::Or => "or".to_owned(),
            TokenType::Print => "print".to_owned(),
            TokenType::Return => "return".to_owned(),
            TokenType::Super => "super".to_owned(),
            TokenType::This => "this".to_owned(),
            TokenType::True => "true".to_owned(),
            TokenType::Var => "var".to_owned(),
            TokenType::While => "while".to_owned(),
            TokenType::Eof => "\\d".to_owned(),
        }
    }
}

/// One classified lexeme: its kind, its exact source text and the line on
/// which it was completed.
#[derive(Debug, Clone, PartialEq)]
pub struct Token {
    pub token_type: TokenType,
    pub lexeme: String,
    pub line: usize,
}

/// Mathematical view of a token.
pub struct TokenView {
    pub kind: KindView,
    pub lexeme: Seq<char>,
    pub line: nat,
}

impl View for Token {
    type V = TokenView;

    open spec fn view(&self) -> TokenView {
        TokenView { kind: self.token_type@, lexeme: self.lexeme@, line: self.line as nat }
    }
}

impl Token {
    pub fn new(token_type: TokenType, lexeme: &str, line: usize) -> (r: Token)
        ensures
            r.token_type == token_type,
            r.lexeme@ == lexeme@,
            r.line == line,
    {
        Token { token_type, lexeme: lexeme.to_owned(), line }
    }

    /// How a token is shown: its kind's text, a space, then its lexeme.
    pub open spec fn text(self) -> Seq<char> {
        self.token_type.text() + " "@ + self.lexeme@
    }

    /// The text that shows this token.
    pub fn display_text(&self) -> (r: String)
        ensures
            r@ == self.text(),
    {
        let mut r = self.token_type.display_text();
        r.append(" ");
        r.append(self.lexeme.as_str());
        r
    }
}

/// The reserved word spelled by `w`, if any.
pub open spec fn keyword(w: Seq<char>) -> Option<TokenType> {
    if w =~= seq!['a', 'n', 'd'] {
        Some(TokenType::And)
    } else if w =~= seq!['c', 'l', 'a', 's', 's'] {
        Some(TokenType::Class)
    } else if w =~= seq!['e', 'l', 's', 'e'] {
        Some(TokenType::Else)
    } else if w =~= seq!['f', 'a', 'l', 's', 'e'] {
        Some(TokenType::False)
    } else if w =~= seq!['f', 'o', 'r'] {
        Some(TokenType::For)
    } else if w =~= seq!['f', 'u', 'n'] {
        Some(TokenType::Fun)
    } else if w =~= seq!['i', 'f'] {
        Some(TokenType::If)
    } else if w =~= seq!['n', 'i', 'l'] {
        Some(TokenType::Nil)
    } else if w =~= seq!['o', 'r'] {
        Some(TokenType::Or)
    } else if w =~= seq!['p', 'r', 'i', 'n', 't'] {
        Some(TokenType::Print)
    } else if w =~= seq!['r', 'e', 't', 'u', 'r', 'n'] {
        Some(TokenType::Return)
    } else if w =~= seq!['s', 'u', 'p', 'e', 'r'] {
        Some(TokenType::Super)
    } else if w =~= seq!['t', 'h', 'i', 's'] {
        Some(TokenType::This)
    } else if w =~= seq!['t', 'r', 'u', 'e'] {
        Some(TokenType::True)
    } else if w =~= seq!['v', 'a', 'r'] {
        Some(TokenType::Var)
    } else if w =~= seq!['w', 'h', 'i', 'l', 'e'] {
        Some(TokenType::While)
    } else {
        None
    }
}

/// Whether `w` spells exactly `k`.
fn spells(w: &[char], k: &[char]) -> (r: bool)
    ensures
        r == (w@ == k@),
{
    if w.len() != k.len() {
        return false;
    }
    let mut i: usize = 0;
    while i < w.len()
        invariant
            w@.len() == k@.len(),
            i <= w@.len(),
            forall|j: int| 0 <= j < i ==> w@[j] == k@[j],
        decreases w@.len() - i,
    {
        if w[i] != k[i] {
            return false;
        }
        i = i + 1;
    }
    assert(w@ =~= k@);
    true
}

/// Looks up the keyword table: the reserved word spelled by `w`, if any.
pub fn get_keyword_token(w: &[char]) -> (r: Option<TokenType>)
    ensures
        r == keyword(w@),
{
    if spells(w, &['a', 'n', 'd']) {
        return Some(TokenType::And);
    }
    if spells(w, &['c', 'l', 'a', 's', 's']) {
        return Some(TokenType::Class);
    }
    if spells(w, &['e', 'l', 's', 'e']) {
        return Some(TokenType::Else);
    }
    if spells(w, &['f', 'a', 'l', 's', 'e']) {
        return Some(TokenType::False);
    }
    if spells(w, &['f', 'o', 'r']) {
        return Some(TokenType::For);
    }
    if spells(w, &['f', 'u', 'n']) {
        return Some(TokenType::Fun);
    }
    if spells(w, &['i', 'f']) {
        return Some(TokenType::If);
    }
    if spells(w, &['n', 'i', 'l']) {
        return Some(TokenType::Nil);
    }
    if spells(w, &['o', 'r']) {
        return Some(TokenType::Or);
    }
    if spells(w, &['p', 'r', 'i', 'n', 't']) {
        return Some(TokenType::Print);
    }
    if spells(w, &['r', 'e', 't', 'u', 'r', 'n']) {
        return Some(TokenType::Return);
    }
    if spells(w, &['s', 'u', 'p', 'e', 'r']) {
        return Some(TokenType::Super);
    }
    if spells(w, &['t', 'h', 'i', 's']) {
        return Some(TokenType::This);
    }
    if spells(w, &['t', 'r', 'u', 'e']) {
        return Some(TokenType::True);
    }
    if spells(w, &['v', 'a', 'r']) {
        return Some(TokenType::Var);
    }
    if spells(w, &['w', 'h', 'i', 'l', 'e']) {
        return Some(TokenType::While);
    }
    None
}

} // verus!
