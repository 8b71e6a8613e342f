//! Tokens of the language and the keyword table.
use crate::numeric::num_of_lexeme;
use vstd::prelude::*;
use vstd::string::StrSliceExecFns;

verus! {

/// The kind of a token. `Number` carries the literal as the bit pattern of an
/// IEEE-754 double; `Str` carries the text between the quotes.
#[derive(Debug, Clone, PartialEq)]
pub enum TokenType {
    LeftParen,
    RightParen,
    LeftBrace,
    RightBrace,
    Comma,
    Dot,
    Minus,
    Plus,
    Semicolon,
    Slash,
    Star,
    Bang,
    BangEqual,
    Equal,
    EqualEqual,
    Greater,
    GreaterEqual,
    Less,
    LessEqual,
    Identifier,
    Str { literal: String },
    Number { literal: u64 },
    And,
    Class,
    Else,
    False,
    Fn,
    Gives,
    For,
    If,
    Nil,
    Or,
    Print,
    Return,
    Super,
    This,
    True,
    Var,
    While,
    Eof,
}

/// Mathematical model of a token kind: string payloads become character sequences.
pub enum TokenTypeV {
    LeftParen,
    RightParen,
    LeftBrace,
    RightBrace,
    Comma,
    Dot,
    Minus,
    Plus,
    Semicolon,
    Slash,
    Star,
    Bang,
    BangEqual,
    Equal,
    EqualEqual,
    Greater,
    GreaterEqual,
    Less,
    LessEqual,
    Identifier,
    Str { literal: Seq<char> },
    Number { literal: u64 },
    And,
    Class,
    Else,
    False,
    Fn,
    Gives,
    For,
    If,
    Nil,
    Or,
    Print,
    Return,
    Super,
    This,
    True,
    Var,
    While,
    Eof,
}

impl View for TokenType {
    type V = TokenTypeV;

    open spec fn view(&self) -> TokenTypeV {
        match self {
            TokenType::LeftParen => TokenTypeV::LeftParen,
            TokenType::RightParen => TokenTypeV::RightParen,
            TokenType::LeftBrace => TokenTypeV::LeftBrace,
            TokenType::RightBrace => TokenTypeV::RightBrace,
            TokenType::Comma => TokenTypeV::Comma,
            TokenType::Dot => TokenTypeV::Dot,
            TokenType::Minus => TokenTypeV::Minus,
            TokenType::Plus => TokenTypeV::Plus,
            TokenType::Semicolon => TokenTypeV::Semicolon,
            TokenType::Slash => TokenTypeV::Slash,
            TokenType::Star => TokenTypeV::Star,
            TokenType::Bang => TokenTypeV::Bang,
            TokenType::BangEqual => TokenTypeV::BangEqual,
            TokenType::Equal => TokenTypeV::Equal,
            TokenType::EqualEqual => TokenTypeV::EqualEqual,
            TokenType::Greater => TokenTypeV::Greater,
            TokenType::GreaterEqual => TokenTypeV::GreaterEqual,
            TokenType::Less => TokenTypeV::Less,
            TokenType::LessEqual => TokenTypeV::LessEqual,
            TokenType::Identifier => TokenTypeV::Identifier,
            TokenType::Str { literal } => TokenTypeV::Str { literal: literal@ },
            TokenType::Number { literal } => TokenTypeV::Number { literal: *literal },
            TokenType::And => TokenTypeV::And,
            TokenType::Class => TokenTypeV::Class,
            TokenType::Else => TokenTypeV::Else,
            TokenType::False => TokenTypeV::False,
            TokenType::Fn => TokenTypeV::Fn,
            TokenType::Gives => TokenTypeV::Gives,
            TokenType::For => TokenTypeV::For,
            TokenType::If => TokenTypeV::If,
            TokenType::Nil => TokenTypeV::Nil,
            TokenType::Or => TokenTypeV::Or,
            TokenType::Print => TokenTypeV::Print,
            TokenType::Return => TokenTypeV::Return,
            TokenType::Super => TokenTypeV::Super,
            TokenType::This => TokenTypeV::This,
            TokenType::True => TokenTypeV::True,
            TokenType::Var => TokenTypeV::Var,
            TokenType::While => TokenTypeV::While,
            TokenType::Eof => TokenTypeV::Eof,
        }
    }
}

/// A token: its kind, the source text it covers, and the line it ends on.
#[derive(Debug, Clone)]
pub struct Token {
    pub token_type: TokenType,
    pub lexeme: String,
    pub line: i32,
}

/// Mathematical model of a token.
pub struct TokenV {
    pub token_type: TokenTypeV,
    pub lexeme: Seq<char>,
    pub line: int,
}

impl View for Token {
    type V = TokenV;

    open spec fn view(&self) -> TokenV {
        TokenV { token_type: self.token_type@, lexeme: self.lexeme@, line: self.line as int }
    }
}

impl Token {
    pub fn new(token_type: TokenType, lexeme: &str, line: i32) -> (t: Token)
        ensures
            t@ == (TokenV { token_type: token_type@, lexeme: lexeme@, line: line as int }),
    {
        Token { token_type, lexeme: lexeme.to_owned(), line }
    }

    /// A copy of this token whose model is the same as the original's.
    pub fn duplicate(&self) -> (t: Token)
        ensures
            t@ == self@,
    {
        let token_type = self.token_type.duplicate();
        Token { token_type, lexeme: self.lexeme.clone(), line: self.line }
    }
}

impl TokenType {
    /// A copy of this kind whose model is the same as the original's.
    pub fn duplicate(&self) -> (k: TokenType)
        ensures
            k@ == self@,
    {
        match self {
            TokenType::LeftParen => TokenType::LeftParen,
            TokenType::RightParen => TokenType::RightParen,
            TokenType::LeftBrace => TokenType::LeftBrace,
            TokenType::RightBrace => TokenType::RightBrace,
            TokenType::Comma => TokenType::Comma,
            TokenType::Dot => TokenType::Dot,
            TokenType::Minus => TokenType::Minus,
            TokenType::Plus => TokenType::Plus,
            TokenType::Semicolon => TokenType::Semicolon,
            TokenType::Slash => TokenType::Slash,
            TokenType::Star => TokenType::Star,
            TokenType::Bang => TokenType::Bang,
            TokenType::BangEqual => TokenType::BangEqual,
            TokenType::Equal => TokenType::Equal,
            TokenType::EqualEqual => TokenType::EqualEqual,
            TokenType::Greater => TokenType::Greater,
            TokenType::GreaterEqual => TokenType::GreaterEqual,
            TokenType::Less => TokenType::Less,
            TokenType::LessEqual => TokenType::LessEqual,
            TokenType::Identifier => TokenType::Identifier,
            TokenType::Str { literal } => TokenType::Str { literal: literal.clone() },
            TokenType::Number { literal } => TokenType::Number { literal: *literal },
            TokenType::And => TokenType::And,
            TokenType::Class => TokenType::Class,
            TokenType::Else => TokenType::Else,
            TokenType::False => TokenType::False,
            TokenType::Fn => TokenType::Fn,
            TokenType::Gives => TokenType::Gives,
            TokenType::For => TokenType::For,
            TokenType::If => TokenType::If,
            TokenType::Nil => TokenType::Nil,
            TokenType::Or => TokenType::Or,
            TokenType::Print => TokenType::Print,
            TokenType::Return => TokenType::Return,
            TokenType::Super => TokenType::Super,
            TokenType::This => TokenType::This,
            TokenType::True => TokenType::True,
            TokenType::Var => TokenType::Var,
            TokenType::While => TokenType::While,
            TokenType::Eof => TokenType::Eof,
        }
    }
}

/// A copy of a token list whose elements model the same tokens.
pub fn tokens_duplicate(v: &Vec<Token>) -> (r: Vec<Token>)
    ensures
        r@.len() == v@.len(),
        forall|j: int| 0 <= j < v@.len() ==> #[trigger] r@[j]@ == v@[j]@,
{
    let mut r: Vec<Token> = Vec::new();
    let n = v.len();
    let mut i: usize = 0;
    while i < n
        invariant
            i <= n,
            n == v@.len(),
            r@.len() == i,
            forall|j: int| 0 <= j < i ==> #[trigger] r@[j]@ == v@[j]@,
        decreases n - i,
    {
        r.push(v[i].duplicate());
        i = i + 1;
    }
    r
}

/// What the keyword table holds for a lexeme: a keyword kind, or nothing.
pub open spec fn keyword_of(s: Seq<char>) -> Option<TokenTypeV> {
    if s == "and"@ {
        Some(TokenTypeV::And)
    } else if s == "class"@ {
        Some(TokenTypeV::Class)
    } else if s == "else"@ {
        Some(TokenTypeV::Else)
    } else if s == "false"@ {
        Some(TokenTypeV::False)
    } else if s == "for"@ {
        Some(TokenTypeV::For)
    } else if s == "fn"@ {
        Some(TokenTypeV::Fn)
    } else if s == "if"@ {
        Some(TokenTypeV::If)
    } else if s == "nil"@ {
        Some(TokenTypeV::Nil)
    } else if s == "or"@ {
        Some(TokenTypeV::Or)
    } else if s == "print"@ {
        Some(TokenTypeV::Print)
    } else if s == "return"@ {
        Some(TokenTypeV::Return)
    } else if s == "super"@ {
        Some(TokenTypeV::Super)
    } else if s == "this"@ {
        Some(TokenTypeV::This)
    } else if s == "true"@ {
        Some(TokenTypeV::True)
    } else if s == "var"@ {
        Some(TokenTypeV::Var)
    } else if s == "while"@ {
        Some(TokenTypeV::While)
    } else {
        None
    }
}

/// An owned copy of a string slice.
pub fn string_of(s: &str) -> (r: String)
    ensures
        r@ == s@,
{
    s.to_owned()
}

/// String equality by contents.
pub fn str_eq(a: &str, b: &str) -> (r: bool)
    ensures
        r == (a@ == b@),
{
    let x = a.to_owned();
    let y = b.to_owned();
    x == y
}

/// Looks a lexeme up in the keyword table.
pub fn keyword_lookup(s: &str) -> (r: Option<TokenType>)
    ensures
        match r {
            Some(k) => keyword_of(s@) == Some(k@),
            None => keyword_of(s@) is None,
        },
{
    if str_eq(s, "and") {
        Some(TokenType::And)
    } else if str_eq(s, "class") {
        Some(TokenType::Class)
    } else if str_eq(s, "else") {
        Some(TokenType::Else)
    } else if str_eq(s, "false") {
        Some(TokenType::False)
    } else if str_eq(s, "for") {
        Some(TokenType::For)
    } else if str_eq(s, "fn") {
        Some(TokenType::Fn)
    } else if str_eq(s, "if") {
        Some(TokenType::If)
    } else if str_eq(s, "nil") {
        Some(TokenType::Nil)
    } else if str_eq(s, "or") {
        Some(TokenType::Or)
    } else if str_eq(s, "print") {
        Some(TokenType::Print)
    } else if str_eq(s, "return") {
        Some(TokenType::Return)
    } else if str_eq(s, "super") {
        Some(TokenType::Super)
    } else if str_eq(s, "this") {
        Some(TokenType::This)
    } else if str_eq(s, "true") {
        Some(TokenType::True)
    } else if str_eq(s, "var") {
        Some(TokenType::Var)
    } else if str_eq(s, "while") {
        Some(TokenType::While)
    } else {
        None
    }
}

/// The token kind the lexer gives an identifier lexeme: its keyword kind if it
/// has one, else `Identifier`.
pub open spec fn ident_kind(s: Seq<char>) -> TokenTypeV {
    match keyword_of(s) {
        Some(k) => k,
        None => TokenTypeV::Identifier,
    }
}

} // verus!
