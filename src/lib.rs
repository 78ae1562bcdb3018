//! Lexical analysis for a small interpreted language: source text in,
//! classified tokens and diagnostics out.
pub mod scanner;
pub mod model;
pub mod token;

use vstd::prelude::*;
use crate::token::string_from_chars;

verus! {

/// A problem found while scanning: the line it was found on and what it is.
#[derive(Debug, Clone, PartialEq)]
pub struct Diagnostic {
    pub line: usize,
    pub message: String,
}

impl View for Diagnostic {
    type V = (nat, Seq<char>);

    open spec fn view(&self) -> (nat, Seq<char>) {
        (self.line as nat, self.message@)
    }
}

/// Records an error found on `line`.
pub fn error(line: usize, message: &str) -> (d: Diagnostic)
    ensures
        d@ == (line as nat, message@),
{
    Diagnostic { line, message: message.to_owned() }
}

impl Diagnostic {
    /// The report line for this diagnostic.
    pub fn display_text(&self) -> (r: String)
        ensures
            r@ == report_text(self.line as nat, ""@, self.message@),
    {
        report(self.line, "", self.message.as_str())
    }
}

/// The decimal digit character for `d`.
pub open spec fn digit_char(d: nat) -> char {
    seq!['0', '1', '2', '3', '4', '5', '6', '7', '8', '9'][d as int]
}

/// The decimal notation of `n`, without leading zeros.
pub open spec fn decimal(n: nat) -> Seq<char>
    decreases n,
{
    if n < 10 {
        seq![digit_char(n)]
    } else {
        decimal(n / 10).push(digit_char(n % 10))
    }
}

/// Appends the decimal notation of `n` to `out`.
fn push_decimal(n: usize, out: &mut Vec<char>)
    ensures
        final(out)@ == old(out)@ + decimal(n as nat),
    decreases n,
{
    let digits = ['0', '1', '2', '3', '4', '5', '6', '7', '8', '9'];
    if n >= 10 {
        push_decimal(n / 10, out);
    }
    out.push(digits[n % 10]);
    assert(digits@ =~= seq!['0', '1', '2', '3', '4', '5', '6', '7', '8', '9']);
}

/// The line that reports an error: where it was found and what it is.
pub open spec fn report_text(line: nat, location: Seq<char>, message: Seq<char>) -> Seq<char> {
    "[line "@ + decimal(line) + "] Error"@ + location + ": "@ + message
}

/// Formats the report of an error found on `line` at `location`.
pub fn report(line: usize, location: &str, message: &str) -> (r: String)
    ensures
        r@ == report_text(line as nat, location@, message@),
{
    let mut digits: Vec<char> = Vec::new();
    push_decimal(line, &mut digits);
    assert(digits@ =~= decimal(line as nat));
    let mut r = "[line ".to_owned();
    r.append(string_from_chars(digits.as_slice()).as_str());
    r.append("] Error");
    r.append(location);
    r.append(": ");
    r.append(message);
    r
}

} // verus!
