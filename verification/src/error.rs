//! The error taxonomy and the diagnostic format. Diagnostics are returned as
//! strings; the surrounding program decides where they go.
use crate::fxunit::FxUnit;
use crate::tokens::{Token, TokenTypeV};
use vstd::prelude::*;
use vstd::string::StringExecFns;

verus! {

/// Errors and signals of the pipeline. `Return` is no user-visible error: it
/// carries a `return` statement's value out through blocks and loops, and only
/// function invocation turns it back into a value.
#[derive(Debug)]
pub enum Error {
    Io { message: String },
    Parse,
    Runtime { token: Token, message: String },
    Return { value: FxUnit },
}

/// The decimal digits of `n`, most significant first.
pub open spec fn dec_digits(n: nat) -> Seq<char>
    decreases n,
{
    if n < 10 {
        seq![digit_char(n as int)]
    } else {
        dec_digits(n / 10) + seq![digit_char((n % 10) as int)]
    }
}

pub open spec fn digit_char(d: int) -> char {
    if d == 0 {
        '0'
    } else if d == 1 {
        '1'
    } else if d == 2 {
        '2'
    } else if d == 3 {
        '3'
    } else if d == 4 {
        '4'
    } else if d == 5 {
        '5'
    } else if d == 6 {
        '6'
    } else if d == 7 {
        '7'
    } else if d == 8 {
        '8'
    } else {
        '9'
    }
}

/// The decimal rendering of a signed line number.
pub open spec fn dec_i32(n: int) -> Seq<char> {
    if n < 0 {
        seq!['-'] + dec_digits((-n) as nat)
    } else {
        dec_digits(n as nat)
    }
}

/// The diagnostic format: `[line N] Error<where>: <message>`.
pub open spec fn diag_text(line: int, where_: Seq<char>, message: Seq<char>) -> Seq<char> {
    "[line "@ + dec_i32(line) + "] Error"@ + where_ + ": "@ + message
}

fn digit_str(d: u64) -> (r: &'static str)
    requires
        d < 10,
    ensures
        r@ == seq![digit_char(d as int)],
{
    proof {
        reveal_strlit("0");
        reveal_strlit("1");
        reveal_strlit("2");
        reveal_strlit("3");
        reveal_strlit("4");
        reveal_strlit("5");
        reveal_strlit("6");
        reveal_strlit("7");
        reveal_strlit("8");
        reveal_strlit("9");
    }
    let r = if d == 0 {
        "0"
    } else if d == 1 {
        "1"
    } else if d == 2 {
        "2"
    } else if d == 3 {
        "3"
    } else if d == 4 {
        "4"
    } else if d == 5 {
        "5"
    } else if d == 6 {
        "6"
    } else if d == 7 {
        "7"
    } else if d == 8 {
        "8"
    } else {
        "9"
    };
    proof {
        assert(r@ =~= seq![digit_char(d as int)]);
    }
    r
}

/// Renders an unsigned number in decimal.
pub fn dec_of_u64(n: u64) -> (r: String)
    ensures
        r@ == dec_digits(n as nat),
    decreases n,
{
    if n < 10 {
        digit_str(n).to_owned()
    } else {
        let mut s = dec_of_u64(n / 10);
        s.append(digit_str(n % 10));
        s
    }
}

/// Renders a signed line number in decimal.
pub fn dec_of_i32(n: i32) -> (r: String)
    ensures
        r@ == dec_i32(n as int),
{
    if n < 0 {
        let m = -(n as i64);
        let mut s = String::from_str("-");
        s.append(dec_of_u64(m as u64).as_str());
        proof {
            reveal_strlit("-");
            assert(s@ =~= dec_i32(n as int));
        }
        s
    } else {
        dec_of_u64(n as u64)
    }
}

/// A diagnostic with no location qualifier.
pub fn error(line: i32, message: &str) -> (r: String)
    ensures
        r@ == diag_text(line as int, Seq::empty(), message@),
{
    let r = report(line, "", message);
    proof {
        reveal_strlit("");
        assert(r@ =~= diag_text(line as int, Seq::empty(), message@));
    }
    r
}

/// A diagnostic in the `[line N] Error<where>: <message>` format.
pub fn report(line: i32, where_: &str, message: &str) -> (r: String)
    ensures
        r@ == diag_text(line as int, where_@, message@),
{
    let mut s = String::from_str("[line ");
    s.append(dec_of_i32(line).as_str());
    s.append("] Error");
    s.append(where_);
    s.append(": ");
    s.append(message);
    proof {
        assert(s@ =~= diag_text(line as int, where_@, message@));
    }
    s
}

/// What a parse error reports: at end for the end-of-file token, else at the
/// offending lexeme.
pub open spec fn parser_diag(t: crate::tokens::TokenV, message: Seq<char>) -> Seq<char> {
    if t.token_type is Eof {
        diag_text(t.line, " at end"@, message)
    } else {
        diag_text(t.line, " at '"@ + t.lexeme + "'"@, message)
    }
}

/// The diagnostic for a parse error at a token.
pub fn parser_error(token: &Token, message: &str) -> (r: String)
    ensures
        r@ == parser_diag(token@, message@),
{
    if matches!(token.token_type, crate::tokens::TokenType::Eof) {
        report(token.line, " at end", message)
    } else {
        let mut w = String::from_str(" at '");
        w.append(token.lexeme.as_str());
        w.append("'");
        let r = report(token.line, w.as_str(), message);
        proof {
            assert(r@ =~= parser_diag(token@, message@));
        }
        r
    }
}

} // verus!
