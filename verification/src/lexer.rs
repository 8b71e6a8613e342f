//! The lexer: source text to tokens. `lex_from` is the specification of the
//! whole scan; `scan_tokens` is proved to produce exactly the tokens and
//! diagnostics it describes.
use crate::error::{diag_text, error};
use crate::numeric::{is_digit_char, is_number_lexeme, num_of_lexeme, num_parse};
use crate::tokens::{ident_kind, keyword_lookup, Token, TokenType, TokenTypeV, TokenV};
use vstd::prelude::*;
use vstd::string::StrSliceExecFns;

verus! {

/// Whether the host treats this character as alphabetic. Relied on below.
pub uninterp spec fn is_alpha(c: char) -> bool;

/// Whether the host treats this character as alphanumeric. Relied on below.
pub uninterp spec fn is_alnum(c: char) -> bool;

/// Relies on char::is_alphabetic: a predicate of the character alone.
#[verifier::external_body]
pub fn char_is_alpha(c: char) -> (r: bool)
    ensures
        r == is_alpha(c),
{
    c.is_alphabetic()
}

/// Relies on char::is_alphanumeric: a predicate of the character alone.
#[verifier::external_body]
pub fn char_is_alnum(c: char) -> (r: bool)
    ensures
        r == is_alnum(c),
{
    c.is_alphanumeric()
}

/// Decides `is_digit_char` on a character.
pub fn char_is_digit(c: char) -> (r: bool)
    ensures
        r == is_digit_char(c),
{
    '0' <= c && c <= '9'
}

/// A character that may continue an identifier.
pub open spec fn is_ident_char(c: char) -> bool {
    is_alnum(c) || c == '_'
}

/// The position after the run of digits that starts at `i`.
pub open spec fn digits_end(s: Seq<char>, i: int) -> int
    decreases s.len() - i,
{
    if 0 <= i < s.len() && is_digit_char(s[i]) {
        digits_end(s, i + 1)
    } else {
        i
    }
}

/// The position after the run of identifier characters that starts at `i`.
pub open spec fn ident_end(s: Seq<char>, i: int) -> int
    decreases s.len() - i,
{
    if 0 <= i < s.len() && is_ident_char(s[i]) {
        ident_end(s, i + 1)
    } else {
        i
    }
}

/// The position of the next newline at or after `i`, or the end of the text:
/// where a line comment stops.
pub open spec fn comment_end(s: Seq<char>, i: int) -> int
    decreases s.len() - i,
{
    if 0 <= i < s.len() && s[i] != '\n' {
        comment_end(s, i + 1)
    } else {
        i
    }
}

/// The position of the closing quote at or after `i`, or the end of the text.
pub open spec fn str_end(s: Seq<char>, i: int) -> int
    decreases s.len() - i,
{
    if 0 <= i < s.len() && s[i] != '"' {
        str_end(s, i + 1)
    } else {
        i
    }
}

/// How many newlines lie in `s[i..j)`.
pub open spec fn count_nl(s: Seq<char>, i: int, j: int) -> int
    decreases j - i,
{
    if i < j {
        count_nl(s, i, j - 1) + if s[j - 1] == '\n' {
            1int
        } else {
            0int
        }
    } else {
        0
    }
}

/// Where a number that started one digit before `i` ends: the remaining
/// digits, then a fractional part if a dot is followed by a digit.
pub open spec fn num_end(s: Seq<char>, i: int) -> int {
    let d = digits_end(s, i);
    if d < s.len() && s[d] == '.' && d + 1 < s.len() && is_digit_char(s[d + 1]) {
        digits_end(s, d + 1)
    } else {
        d
    }
}

pub proof fn lemma_digits_end_bounds(s: Seq<char>, i: int)
    requires
        0 <= i <= s.len(),
    ensures
        i <= digits_end(s, i) <= s.len(),
        forall|k: int| i <= k < digits_end(s, i) ==> is_digit_char(#[trigger] s[k]),
        digits_end(s, i) < s.len() ==> !is_digit_char(s[digits_end(s, i)]),
    decreases s.len() - i,
{
    if i < s.len() && is_digit_char(s[i]) {
        lemma_digits_end_bounds(s, i + 1);
    }
}

pub proof fn lemma_ident_end_bounds(s: Seq<char>, i: int)
    requires
        0 <= i <= s.len(),
    ensures
        i <= ident_end(s, i) <= s.len(),
        ident_end(s, i) < s.len() ==> !is_ident_char(s[ident_end(s, i)]),
        forall|k: int| i <= k < ident_end(s, i) ==> is_ident_char(#[trigger] s[k]),
    decreases s.len() - i,
{
    if i < s.len() && is_ident_char(s[i]) {
        lemma_ident_end_bounds(s, i + 1);
    }
}

pub proof fn lemma_comment_end_bounds(s: Seq<char>, i: int)
    requires
        0 <= i <= s.len(),
    ensures
        i <= comment_end(s, i) <= s.len(),
    decreases s.len() - i,
{
    if i < s.len() && s[i] != '\n' {
        lemma_comment_end_bounds(s, i + 1);
    }
}

pub proof fn lemma_str_end_bounds(s: Seq<char>, i: int)
    requires
        0 <= i <= s.len(),
    ensures
        i <= str_end(s, i) <= s.len(),
        str_end(s, i) < s.len() ==> s[str_end(s, i)] == '"',
        forall|k: int| i <= k < str_end(s, i) ==> (#[trigger] s[k]) != '"',
    decreases s.len() - i,
{
    if i < s.len() && s[i] != '"' {
        lemma_str_end_bounds(s, i + 1);
    }
}

pub proof fn lemma_count_nl_bounds(s: Seq<char>, i: int, j: int)
    requires
        i <= j,
    ensures
        0 <= count_nl(s, i, j) <= j - i,
    decreases j - i,
{
    if i < j {
        lemma_count_nl_bounds(s, i, j - 1);
    }
}

/// What one call of the scanner's step does, from a position strictly inside
/// the text: where it stops, the line it ends on, and the token or diagnostic
/// it emits.
pub struct LexStep {
    pub next: int,
    pub line2: int,
    pub toks: Seq<TokenV>,
    pub diags: Seq<Seq<char>>,
}

pub open spec fn tv(k: TokenTypeV, lexeme: Seq<char>, line: int) -> TokenV {
    TokenV { token_type: k, lexeme, line }
}

pub open spec fn step1(s: Seq<char>, i: int, line: int, k: TokenTypeV) -> LexStep {
    LexStep { next: i + 1, line2: line, toks: seq![tv(k, s.subrange(i, i + 1), line)], diags: seq![] }
}

pub open spec fn step2(s: Seq<char>, i: int, line: int, k: TokenTypeV) -> LexStep {
    LexStep { next: i + 2, line2: line, toks: seq![tv(k, s.subrange(i, i + 2), line)], diags: seq![] }
}

pub open spec fn step_pair(s: Seq<char>, i: int, line: int, second: char, k2: TokenTypeV, k1: TokenTypeV) -> LexStep {
    if i + 1 < s.len() && s[i + 1] == second {
        step2(s, i, line, k2)
    } else {
        step1(s, i, line, k1)
    }
}

/// One step of the scan from position `i` on line `line`; `i` is inside the text.
pub open spec fn lex_step(s: Seq<char>, i: int, line: int) -> LexStep {
    let c = s[i];
    if c == '(' {
        step1(s, i, line, TokenTypeV::LeftParen)
    } else if c == ')' {
        step1(s, i, line, TokenTypeV::RightParen)
    } else if c == '{' {
        step1(s, i, line, TokenTypeV::LeftBrace)
    } else if c == '}' {
        step1(s, i, line, TokenTypeV::RightBrace)
    } else if c == ',' {
        step1(s, i, line, TokenTypeV::Comma)
    } else if c == '.' {
        step1(s, i, line, TokenTypeV::Dot)
    } else if c == '-' {
        step_pair(s, i, line, '>', TokenTypeV::Gives, TokenTypeV::Minus)
    } else if c == '+' {
        step1(s, i, line, TokenTypeV::Plus)
    } else if c == ';' {
        step1(s, i, line, TokenTypeV::Semicolon)
    } else if c == '*' {
        step1(s, i, line, TokenTypeV::Star)
    } else if c == '!' {
        step_pair(s, i, line, '=', TokenTypeV::BangEqual, TokenTypeV::Bang)
    } else if c == '=' {
        step_pair(s, i, line, '=', TokenTypeV::EqualEqual, TokenTypeV::Equal)
    } else if c == '<' {
        step_pair(s, i, line, '=', TokenTypeV::LessEqual, TokenTypeV::Less)
    } else if c == '>' {
        step_pair(s, i, line, '=', TokenTypeV::GreaterEqual, TokenTypeV::Greater)
    } else if c == '/' {
        if i + 1 < s.len() && s[i + 1] == '/' {
            LexStep { next: comment_end(s, i + 2), line2: line, toks: seq![], diags: seq![] }
        } else {
            step1(s, i, line, TokenTypeV::Slash)
        }
    } else if c == ' ' || c == '\r' || c == '\t' {
        LexStep { next: i + 1, line2: line, toks: seq![], diags: seq![] }
    } else if c == '\n' {
        LexStep { next: i + 1, line2: line + 1, toks: seq![], diags: seq![] }
    } else if c == '"' {
        let j = str_end(s, i + 1);
        let l2 = line + count_nl(s, i + 1, j);
        if j >= s.len() {
            LexStep {
                next: s.len() as int,
                line2: l2,
                toks: seq![],
                diags: seq![diag_text(line, Seq::empty(), "Unterminated string."@)],
            }
        } else {
            LexStep {
                next: j + 1,
                line2: l2,
                toks: seq![
                    tv(
                        TokenTypeV::Str { literal: s.subrange(i + 1, j) },
                        s.subrange(i, j + 1),
                        l2,
                    ),
                ],
                diags: seq![],
            }
        }
    } else if is_digit_char(c) {
        let end = num_end(s, i + 1);
        LexStep {
            next: end,
            line2: line,
            toks: seq![
                tv(
                    TokenTypeV::Number { literal: num_of_lexeme(s.subrange(i, end)) },
                    s.subrange(i, end),
                    line,
                ),
            ],
            diags: seq![],
        }
    } else if is_alpha(c) || c == '_' {
        let end = ident_end(s, i + 1);
        LexStep {
            next: end,
            line2: line,
            toks: seq![tv(ident_kind(s.subrange(i, end)), s.subrange(i, end), line)],
            diags: seq![],
        }
    } else {
        LexStep {
            next: i + 1,
            line2: line,
            toks: seq![],
            diags: seq![diag_text(line, Seq::empty(), "Unexpected character."@)],
        }
    }
}

/// A step starting inside the text always moves forward, stays inside the
/// text, and advances the line count by at most one per character consumed.
pub proof fn lemma_lex_step_advances(s: Seq<char>, i: int, line: int)
    requires
        0 <= i < s.len(),
    ensures
        i < lex_step(s, i, line).next <= s.len(),
        line <= lex_step(s, i, line).line2 <= line + (lex_step(s, i, line).next - i),
{
    let c = s[i];
    if c == '/' && i + 1 < s.len() && s[i + 1] == '/' {
        lemma_comment_end_bounds(s, i + 2);
    } else if c == '"' {
        lemma_str_end_bounds(s, i + 1);
        lemma_count_nl_bounds(s, i + 1, str_end(s, i + 1));
    } else if !(c == '(' || c == ')' || c == '{' || c == '}' || c == ',' || c == '.' || c == '-'
        || c == '+' || c == ';' || c == '*' || c == '!' || c == '=' || c == '<' || c == '>' || c
        == '/' || c == ' ' || c == '\r' || c == '\t' || c == '\n') {
        if is_digit_char(c) {
            lemma_digits_end_bounds(s, i + 1);
            let d = digits_end(s, i + 1);
            if d < s.len() && s[d] == '.' && d + 1 < s.len() && is_digit_char(s[d + 1]) {
                lemma_digits_end_bounds(s, d + 1);
            }
        } else if is_alpha(c) || c == '_' {
            lemma_ident_end_bounds(s, i + 1);
        }
    }
}

/// Everything the scan of the rest of the text produces: its tokens, ended by
/// the end-of-file token, and its diagnostics.
pub struct LexOut {
    pub toks: Seq<TokenV>,
    pub diags: Seq<Seq<char>>,
}

pub open spec fn lex_from(s: Seq<char>, i: int, line: int) -> LexOut
    decreases s.len() - i,
{
    if !(0 <= i < s.len()) {
        LexOut { toks: seq![tv(TokenTypeV::Eof, Seq::empty(), line)], diags: seq![] }
    } else {
        let st = lex_step(s, i, line);
        if st.next <= i || st.next > s.len() {
            LexOut { toks: seq![], diags: seq![] }
        } else {
            let rest = lex_from(s, st.next, st.line2);
            LexOut { toks: st.toks + rest.toks, diags: st.diags + rest.diags }
        }
    }
}

/// The models of a list of tokens.
pub open spec fn toks_v(s: Seq<Token>) -> Seq<TokenV> {
    s.map_values(|t: Token| t@)
}

/// The models of a list of diagnostics.
pub open spec fn diags_v(s: Seq<String>) -> Seq<Seq<char>> {
    s.map_values(|d: String| d@)
}

pub proof fn lemma_toks_v_push(s: Seq<Token>, t: Token)
    ensures
        toks_v(s.push(t)) =~= toks_v(s) + seq![t@],
{
}

pub proof fn lemma_diags_v_push(s: Seq<String>, d: String)
    ensures
        diags_v(s.push(d)) =~= diags_v(s) + seq![d@],
{
}

/// The lexer: tracks the start of the token being scanned, the scan position,
/// and the current line, all in characters.
pub struct Lexer {
    pub src: String,
    pub n: usize,
    pub token: Vec<Token>,
    pub diags: Vec<String>,
    pub start: usize,
    pub current: usize,
    pub line: i32,
}

impl Lexer {
    /// The lexer walks its source by character index and counts lines.
    pub open spec fn wf(&self) -> bool {
        &&& self.n == self.src@.len()
        &&& self.n < 0x7FFF_FFF0
        &&& self.current <= self.n
        &&& 1 <= self.line as int
        &&& self.line as int + (self.n - self.current) < 0x7FFF_FFFF
    }

    pub open spec fn src_chars(&self) -> Seq<char> {
        self.src@
    }

    pub open spec fn at(&self) -> int {
        self.current as int
    }

    pub open spec fn line_at(&self) -> int {
        self.line as int
    }

    pub fn new(src: String) -> (l: Lexer)
        requires
            src@.len() < 0x7FFF_FFF0,
        ensures
            l.wf(),
            l.src_chars() == src@,
            l.at() == 0,
            l.line_at() == 1,
            l.token@ =~= Seq::<Token>::empty(),
            l.diags@ =~= Seq::<String>::empty(),
    {
        let n = src.as_str().unicode_len();
        Lexer { src, n, token: Vec::new(), diags: Vec::new(), start: 0, current: 0, line: 1 }
    }

    fn is_at_end(&self) -> (r: bool)
        requires
            self.wf(),
        ensures
            r == (self.at() >= self.src_chars().len()),
    {
        self.current >= self.n
    }

    /// The character at the scan position, or a NUL character at the end.
    fn peek(&self) -> (c: char)
        requires
            self.wf(),
        ensures
            c == if self.at() < self.src_chars().len() {
                self.src_chars()[self.at()]
            } else {
                '\0'
            },
    {
        if self.current < self.n {
            self.src.as_str().get_char(self.current)
        } else {
            '\0'
        }
    }

    /// The character after the scan position, or a NUL character at the end.
    fn peek_next(&self) -> (c: char)
        requires
            self.wf(),
        ensures
            c == if self.at() + 1 < self.src_chars().len() {
                self.src_chars()[self.at() + 1]
            } else {
                '\0'
            },
    {
        if self.current + 1 < self.n {
            self.src.as_str().get_char(self.current + 1)
        } else {
            '\0'
        }
    }

    fn advance(&mut self) -> (c: char)
        requires
            old(self).wf(),
            old(self).at() < old(self).src_chars().len(),
        ensures
            final(self).wf(),
            c == old(self).src_chars()[old(self).at()],
            final(self).current == old(self).current + 1,
            *final(self) == (Lexer { current: final(self).current, ..*old(self) }),
    {
        let c = self.src.as_str().get_char(self.current);
        self.current = self.current + 1;
        c
    }

    /// Consumes the next character when it is the expected one.
    fn n_match(&mut self, expected: char) -> (r: bool)
        requires
            old(self).wf(),
        ensures
            final(self).wf(),
            r == (old(self).at() < old(self).src_chars().len() && old(self).src_chars()[old(
                self,
            ).at()] == expected),
            final(self).current == old(self).current + if r {
                1int
            } else {
                0int
            },
            *final(self) == (Lexer { current: final(self).current, ..*old(self) }),
    {
        if self.is_at_end() {
            return false;
        }
        if self.src.as_str().get_char(self.current) != expected {
            return false;
        }
        self.current = self.current + 1;
        true
    }

    /// Appends a token covering the text from `start` to the scan position.
    fn add_token(&mut self, token_type: TokenType)
        requires
            old(self).wf(),
            old(self).start <= old(self).current,
        ensures
            final(self).wf(),
            toks_v(final(self).token@) =~= toks_v(old(self).token@) + seq![
                tv(
                    token_type@,
                    old(self).src_chars().subrange(
                        old(self).start as int,
                        old(self).current as int,
                    ),
                    old(self).line as int,
                ),
            ],
            *final(self) == (Lexer { token: final(self).token, ..*old(self) }),
    {
        let txt = self.src.as_str().substring_char(self.start, self.current);
        let t = Token::new(token_type, txt, self.line);
        proof {
            lemma_toks_v_push(self.token@, t);
        }
        self.token.push(t);
    }

    /// Scans the rest of an identifier and looks its lexeme up in the keyword
    /// table.
    #[verifier::loop_isolation(false)]
    fn identifier(&mut self)
        requires
            old(self).wf(),
            old(self).current == old(self).start + 1,
            old(self).current <= old(self).n,
        ensures
            final(self).wf(),
            *final(self) == (Lexer {
                current: final(self).current,
                token: final(self).token,
                ..*old(self)
            }),
            final(self).current as int == ident_end(old(self).src_chars(), old(self).at()),
            toks_v(final(self).token@) =~= toks_v(old(self).token@) + seq![
                tv(
                    ident_kind(
                        old(self).src_chars().subrange(
                            old(self).start as int,
                            ident_end(old(self).src_chars(), old(self).at()),
                        ),
                    ),
                    old(self).src_chars().subrange(
                        old(self).start as int,
                        ident_end(old(self).src_chars(), old(self).at()),
                    ),
                    old(self).line as int,
                ),
            ],
    {
        let ghost s = self.src@;
        let ghost end = ident_end(s, self.current as int);
        proof {
            lemma_ident_end_bounds(s, self.current as int);
        }
        while !self.is_at_end() && (char_is_alnum(self.peek()) || self.peek() == '_')
            invariant
                self.wf(),
                old(self).current <= self.current <= self.n,
                ident_end(s, self.current as int) == end,
                *self == (Lexer { current: self.current, ..*old(self) }),
            decreases self.n - self.current,
        {
            self.advance();
        }
        let txt = self.src.as_str().substring_char(self.start, self.current);
        let t_type: TokenType = match keyword_lookup(txt) {
            Some(k) => k,
            None => TokenType::Identifier,
        };
        self.add_token(t_type);
    }

    /// Scans the rest of a number: digits, then a fraction if a dot is
    /// followed by a digit; the literal is the double the lexeme denotes.
    #[verifier::loop_isolation(false)]
    fn number(&mut self)
        requires
            old(self).wf(),
            old(self).current == old(self).start + 1,
            old(self).current <= old(self).n,
            is_digit_char(old(self).src_chars()[old(self).start as int]),
        ensures
            final(self).wf(),
            *final(self) == (Lexer {
                current: final(self).current,
                token: final(self).token,
                ..*old(self)
            }),
            final(self).current as int == num_end(old(self).src_chars(), old(self).at()),
            toks_v(final(self).token@) =~= toks_v(old(self).token@) + seq![
                tv(
                    TokenTypeV::Number {
                        literal: num_of_lexeme(
                            old(self).src_chars().subrange(
                                old(self).start as int,
                                num_end(old(self).src_chars(), old(self).at()),
                            ),
                        ),
                    },
                    old(self).src_chars().subrange(
                        old(self).start as int,
                        num_end(old(self).src_chars(), old(self).at()),
                    ),
                    old(self).line as int,
                ),
            ],
    {
        let ghost s = self.src@;
        let ghost b = self.start as int;
        let ghost d = digits_end(s, self.current as int);
        proof {
            lemma_digits_end_bounds(s, self.current as int);
        }
        while char_is_digit(self.peek())
            invariant
                self.wf(),
                old(self).current <= self.current <= self.n,
                digits_end(s, self.current as int) == d,
                *self == (Lexer { current: self.current, ..*old(self) }),
            decreases self.n - self.current,
        {
            self.advance();
        }
        if self.peek() == '.' && char_is_digit(self.peek_next()) {
            self.advance();
            proof {
                lemma_digits_end_bounds(s, self.current as int);
            }
            let ghost d2 = digits_end(s, d + 1);
            while char_is_digit(self.peek())
                invariant
                    self.wf(),
                    d + 1 <= self.current <= self.n,
                    digits_end(s, self.current as int) == d2,
                    *self == (Lexer { current: self.current, ..*old(self) }),
                decreases self.n - self.current,
            {
                self.advance();
            }
        }
        proof {
            let end = num_end(s, old(self).at());
            assert(self.current as int == end);
            let sub = s.subrange(b, end);
            lemma_digits_end_bounds(s, b + 1);
            if end == digits_end(s, b + 1) {
                assert forall|k: int| 0 <= k < sub.len() implies is_digit_char(
                    #[trigger] sub[k],
                ) by {
                    assert(sub[k] == s[b + k]);
                }
                assert(is_number_lexeme(sub));
            } else {
                let dd = digits_end(s, b + 1);
                lemma_digits_end_bounds(s, dd + 1);
                let k = dd - b;
                assert(sub[k] == '.');
                assert forall|m: int| 0 <= m < k implies is_digit_char(
                    #[trigger] sub.subrange(0, k)[m],
                ) by {
                    assert(sub.subrange(0, k)[m] == s[b + m]);
                }
                assert forall|m: int| 0 <= m < sub.len() - k - 1 implies is_digit_char(
                    #[trigger] sub.subrange(k + 1, sub.len() as int)[m],
                ) by {
                    assert(sub.subrange(k + 1, sub.len() as int)[m] == s[dd + 1 + m]);
                }
                assert(crate::numeric::all_digits(sub.subrange(0, k)));
                assert(crate::numeric::all_digits(sub.subrange(k + 1, sub.len() as int)));
                assert(1 <= k < sub.len() - 1);
                assert(is_number_lexeme(sub));
            }
        }
        let txt = self.src.as_str().substring_char(self.start, self.current);
        match num_parse(txt) {
            Some(bits) => {
                self.add_token(TokenType::Number { literal: bits });
            },
            None => {
                proof {
                    assert(false);
                }
            },
        }
    }

    /// Scans the rest of a string literal: up to the closing quote, counting
    /// embedded newlines; an unterminated string is a diagnostic at its
    /// opening line and yields no token.
    #[verifier::loop_isolation(false)]
    fn string(&mut self)
        requires
            old(self).wf(),
            old(self).current == old(self).start + 1,
            old(self).current <= old(self).n,
        ensures
            final(self).wf(),
            *final(self) == (Lexer {
                current: final(self).current,
                line: final(self).line,
                token: final(self).token,
                diags: final(self).diags,
                ..*old(self)
            }),
            ({
                let s = old(self).src_chars();
                let j = str_end(s, old(self).at());
                let l2 = old(self).line as int + count_nl(s, old(self).at(), j);
                &&& final(self).line as int == l2
                &&& if j >= s.len() {
                    &&& final(self).current as int == s.len()
                    &&& toks_v(final(self).token@) =~= toks_v(old(self).token@)
                    &&& diags_v(final(self).diags@) =~= diags_v(old(self).diags@) + seq![
                        diag_text(old(self).line as int, Seq::empty(), "Unterminated string."@),
                    ]
                } else {
                    &&& final(self).current as int == j + 1
                    &&& toks_v(final(self).token@) =~= toks_v(old(self).token@) + seq![
                        tv(
                            TokenTypeV::Str {
                                literal: s.subrange(old(self).start as int + 1, j),
                            },
                            s.subrange(old(self).start as int, j + 1),
                            l2,
                        ),
                    ]
                    &&& diags_v(final(self).diags@) =~= diags_v(old(self).diags@)
                }
            }),
    {
        let line_open = self.line;
        let ghost s = self.src@;
        let ghost j = str_end(s, self.current as int);
        let ghost line0 = self.line as int;
        let ghost c0 = self.current as int;
        proof {
            lemma_str_end_bounds(s, self.current as int);
            lemma_count_nl_bounds(s, c0, j);
        }
        while !(self.peek() == '"') && !self.is_at_end()
            invariant
                self.wf(),
                old(self).current <= self.current <= self.n,
                str_end(s, self.current as int) == j,
                self.line as int == line0 + count_nl(s, c0, self.current as int),
                *self == (Lexer { current: self.current, line: self.line, ..*old(self) }),
            decreases self.n - self.current,
        {
            proof {
                lemma_count_nl_bounds(s, c0, self.current as int);
            }
            let c = self.advance();
            if c == '\n' {
                self.line = self.line + 1;
            }
        }
        if self.is_at_end() {
            let d = error(line_open, "Unterminated string.");
            proof {
                lemma_diags_v_push(self.diags@, d);
                assert(count_nl(s, c0, j) == count_nl(s, c0, self.current as int));
            }
            self.diags.push(d);
            return ;
        }
        self.advance();
        let literal = self.src.as_str().substring_char(self.start + 1, self.current - 1);
        let txt = self.src.as_str().substring_char(self.start, self.current);
        let t2 = Token::new(TokenType::Str { literal: literal.to_owned() }, txt, self.line);
        proof {
            lemma_toks_v_push(self.token@, t2);
        }
        self.token.push(t2);
    }

    /// Scans one token, or consumes what produces none: whitespace, a comment,
    /// or an offending character, which is a diagnostic.
    #[verifier::loop_isolation(false)]
    fn scan_token(&mut self)
        requires
            old(self).wf(),
            old(self).start == old(self).current,
            old(self).at() < old(self).src_chars().len(),
        ensures
            final(self).wf(),
            *final(self) == (Lexer {
                current: final(self).current,
                line: final(self).line,
                token: final(self).token,
                diags: final(self).diags,
                ..*old(self)
            }),
            ({
                let st = lex_step(old(self).src_chars(), old(self).at(), old(self).line_at());
                &&& final(self).at() == st.next
                &&& final(self).line_at() == st.line2
                &&& toks_v(final(self).token@) =~= toks_v(old(self).token@) + st.toks
                &&& diags_v(final(self).diags@) =~= diags_v(old(self).diags@) + st.diags
            }),
    {
        let ghost s = self.src@;
        let ghost i = self.current as int;
        let ghost line0 = self.line as int;
        let c: char = self.advance();
        match c {
            '(' => self.add_token(TokenType::LeftParen),
            ')' => self.add_token(TokenType::RightParen),
            '{' => self.add_token(TokenType::LeftBrace),
            '}' => self.add_token(TokenType::RightBrace),
            ',' => self.add_token(TokenType::Comma),
            '.' => self.add_token(TokenType::Dot),
            '-' => {
                if self.n_match('>') {
                    self.add_token(TokenType::Gives)
                } else {
                    self.add_token(TokenType::Minus)
                }
            },
            '+' => self.add_token(TokenType::Plus),
            ';' => self.add_token(TokenType::Semicolon),
            '*' => self.add_token(TokenType::Star),
            '!' => {
                if self.n_match('=') {
                    self.add_token(TokenType::BangEqual)
                } else {
                    self.add_token(TokenType::Bang)
                }
            },
            '=' => {
                if self.n_match('=') {
                    self.add_token(TokenType::EqualEqual)
                } else {
                    self.add_token(TokenType::Equal)
                }
            },
            '<' => {
                if self.n_match('=') {
                    self.add_token(TokenType::LessEqual)
                } else {
                    self.add_token(TokenType::Less)
                }
            },
            '>' => {
                if self.n_match('=') {
                    self.add_token(TokenType::GreaterEqual)
                } else {
                    self.add_token(TokenType::Greater)
                }
            },
            '/' => {
                if self.n_match('/') {
                    let ghost target = comment_end(s, self.current as int);
                    proof {
                        lemma_comment_end_bounds(s, self.current as int);
                    }
                    while self.peek() != '\n' && !self.is_at_end()
                        invariant
                            self.wf(),
                            i < self.current <= self.n,
                            comment_end(s, self.current as int) == target,
                            *self == (Lexer { current: self.current, ..*old(self) }),
                        decreases self.n - self.current,
                    {
                        self.advance();
                    }
                } else {
                    self.add_token(TokenType::Slash)
                }
            },
            ' ' | '\r' | '\t' => (),
            '\n' => {
                self.line = self.line + 1;
            },
            '"' => self.string(),
            c => {
                if char_is_digit(c) {
                    self.number()
                } else if char_is_alpha(c) || c == '_' {
                    self.identifier()
                } else {
                    let d = error(self.line, "Unexpected character.");
                    proof {
                        lemma_diags_v_push(self.diags@, d);
                    }
                    self.diags.push(d);
                }
            },
        }
    }

    /// Scans the whole source: the tokens of `lex_from`, ended by the
    /// end-of-file token; lexical errors accumulate in `diags` and scanning
    /// goes on past them.
    #[verifier::loop_isolation(false)]
    pub fn scan_tokens(&mut self) -> (r: Vec<Token>)
        requires
            old(self).wf(),
        ensures
            final(self).wf(),
            toks_v(r@) =~= toks_v(old(self).token@) + lex_from(
                old(self).src_chars(),
                old(self).at(),
                old(self).line_at(),
            ).toks,
            toks_v(final(self).token@) =~= toks_v(r@),
            diags_v(final(self).diags@) =~= diags_v(old(self).diags@) + lex_from(
                old(self).src_chars(),
                old(self).at(),
                old(self).line_at(),
            ).diags,
            final(self).src == old(self).src,
    {
        let ghost s = self.src@;
        let ghost full = lex_from(s, old(self).at(), old(self).line_at());
        while !self.is_at_end()
            invariant
                self.wf(),
                self.src == old(self).src,
                self.n == old(self).n,
                toks_v(old(self).token@) + full.toks =~= toks_v(self.token@) + lex_from(
                    s,
                    self.at(),
                    self.line_at(),
                ).toks,
                diags_v(old(self).diags@) + full.diags =~= diags_v(self.diags@) + lex_from(
                    s,
                    self.at(),
                    self.line_at(),
                ).diags,
            decreases self.n - self.current,
        {
            proof {
                lemma_lex_step_advances(s, self.at(), self.line_at());
            }
            self.start = self.current;
            self.scan_token();
        }
        let t = Token::new(TokenType::Eof, "", self.line);
        proof {
            reveal_strlit("");
            assert(""@ =~= Seq::<char>::empty());
            lemma_toks_v_push(self.token@, t);
        }
        self.token.push(t);
        let r = crate::tokens::tokens_duplicate(&self.token);
        proof {
            assert(toks_v(r@) =~= toks_v(self.token@));
        }
        r
    }
}


/// Scanning stops exactly where a run of digits does.
pub proof fn lemma_digits_end_exact(s: Seq<char>, i: int, j: int)
    requires
        0 <= i <= j <= s.len(),
        forall|k: int| i <= k < j ==> is_digit_char(#[trigger] s[k]),
        j == s.len() || !is_digit_char(s[j]),
    ensures
        digits_end(s, i) == j,
    decreases j - i,
{
    if i < j {
        lemma_digits_end_exact(s, i + 1, j);
    }
}

/// Scanning stops exactly where a run of identifier characters does.
pub proof fn lemma_ident_end_exact(s: Seq<char>, i: int, j: int)
    requires
        0 <= i <= j <= s.len(),
        forall|k: int| i <= k < j ==> is_ident_char(#[trigger] s[k]),
        j == s.len() || !is_ident_char(s[j]),
    ensures
        ident_end(s, i) == j,
    decreases j - i,
{
    if i < j {
        lemma_ident_end_exact(s, i + 1, j);
    }
}

/// Scanning stops exactly at the first quote.
pub proof fn lemma_str_end_exact(s: Seq<char>, i: int, j: int)
    requires
        0 <= i <= j <= s.len(),
        forall|k: int| i <= k < j ==> (#[trigger] s[k]) != '"',
        j == s.len() || s[j] == '"',
    ensures
        str_end(s, i) == j,
    decreases j - i,
{
    if i < j {
        lemma_str_end_exact(s, i + 1, j);
    }
}

/// A character on which the scanner's first dispatch fires.
pub open spec fn special_char(c: char) -> bool {
    c == '(' || c == ')' || c == '{' || c == '}' || c == ',' || c == '.' || c == '-' || c == '+'
        || c == ';' || c == '*' || c == '!' || c == '=' || c == '<' || c == '>' || c == '/' || c
        == ' ' || c == '\r' || c == '\t' || c == '\n' || c == '"'
}

/// The shape of an identifier or keyword lexeme: it starts with an alphabetic
/// character or an underscore — on which no earlier branch of the scanner
/// fires — and goes on with identifier characters.
pub open spec fn ident_shape(s: Seq<char>) -> bool {
    &&& s.len() >= 1
    &&& (is_alpha(s[0]) || s[0] == '_')
    &&& !special_char(s[0])
    &&& !is_digit_char(s[0])
    &&& forall|k: int| 1 <= k < s.len() ==> is_ident_char(#[trigger] s[k])
}

/// What the text under a token looks like, by its kind: exactly the token's
/// spelling for punctuation; a digits-and-dot literal for a number, which the
/// literal's bits come from; a quote-delimited text for a string, whose
/// payload is the text between the quotes; an identifier shape whose keyword
/// lookup gives the kind back, for identifiers and keywords.
pub open spec fn token_lexeme_wf(t: TokenV) -> bool {
    match t.token_type {
        TokenTypeV::LeftParen => t.lexeme =~= seq!['('],
        TokenTypeV::RightParen => t.lexeme =~= seq![')'],
        TokenTypeV::LeftBrace => t.lexeme =~= seq!['{'],
        TokenTypeV::RightBrace => t.lexeme =~= seq!['}'],
        TokenTypeV::Comma => t.lexeme =~= seq![','],
        TokenTypeV::Dot => t.lexeme =~= seq!['.'],
        TokenTypeV::Minus => t.lexeme =~= seq!['-'],
        TokenTypeV::Plus => t.lexeme =~= seq!['+'],
        TokenTypeV::Semicolon => t.lexeme =~= seq![';'],
        TokenTypeV::Slash => t.lexeme =~= seq!['/'],
        TokenTypeV::Star => t.lexeme =~= seq!['*'],
        TokenTypeV::Bang => t.lexeme =~= seq!['!'],
        TokenTypeV::BangEqual => t.lexeme =~= seq!['!', '='],
        TokenTypeV::Equal => t.lexeme =~= seq!['='],
        TokenTypeV::EqualEqual => t.lexeme =~= seq!['=', '='],
        TokenTypeV::Greater => t.lexeme =~= seq!['>'],
        TokenTypeV::GreaterEqual => t.lexeme =~= seq!['>', '='],
        TokenTypeV::Less => t.lexeme =~= seq!['<'],
        TokenTypeV::LessEqual => t.lexeme =~= seq!['<', '='],
        TokenTypeV::Gives => t.lexeme =~= seq!['-', '>'],
        TokenTypeV::Str { literal } => {
            &&& t.lexeme.len() >= 2
            &&& t.lexeme[0] == '"'
            &&& t.lexeme[t.lexeme.len() - 1] == '"'
            &&& forall|k: int| 1 <= k < t.lexeme.len() - 1 ==> (#[trigger] t.lexeme[k]) != '"'
            &&& literal =~= t.lexeme.subrange(1, t.lexeme.len() - 1)
        },
        TokenTypeV::Number { literal } => {
            &&& is_number_lexeme(t.lexeme)
            &&& !special_char(t.lexeme[0])
            &&& is_digit_char(t.lexeme[0])
            &&& literal == num_of_lexeme(t.lexeme)
        },
        TokenTypeV::Eof => false,
        _ => ident_shape(t.lexeme) && ident_kind(t.lexeme) == t.token_type,
    }
}

/// Every token the scanner produces has a well-formed lexeme; the stream ends
/// with the end-of-file token and holds no other.
pub proof fn lemma_lex_tokens_wf(s: Seq<char>, i: int, line: int)
    ensures
        ({
            let toks = lex_from(s, i, line).toks;
            &&& toks.len() >= 1
            &&& toks.last().token_type is Eof
            &&& forall|k: int| 0 <= k < toks.len() - 1 ==> token_lexeme_wf(#[trigger] toks[k])
        }),
    decreases s.len() - i,
{
    if !(0 <= i < s.len()) {
    } else {
        lemma_lex_step_advances(s, i, line);
        let st = lex_step(s, i, line);
        lemma_lex_tokens_wf(s, st.next, st.line2);
        let rest = lex_from(s, st.next, st.line2).toks;
        let toks = lex_from(s, i, line).toks;
        assert(toks =~= st.toks + rest);
        lemma_lex_step_token_wf(s, i, line);
        assert forall|k: int| 0 <= k < toks.len() - 1 implies token_lexeme_wf(
            #[trigger] toks[k],
        ) by {
            if k < st.toks.len() {
                assert(toks[k] == st.toks[k]);
            } else {
                assert(toks[k] == rest[k - st.toks.len()]);
            }
        }
        assert(toks.last() == rest.last());
    }
}

/// The one token a scanner step may produce has a well-formed lexeme.
proof fn lemma_lex_step_token_wf(s: Seq<char>, i: int, line: int)
    requires
        0 <= i < s.len(),
    ensures
        forall|k: int|
            0 <= k < lex_step(s, i, line).toks.len() ==> token_lexeme_wf(
                #[trigger] lex_step(s, i, line).toks[k],
            ),
{
    let c = s[i];
    let st = lex_step(s, i, line);
    if c == '"' {
        let j = str_end(s, i + 1);
        lemma_str_end_bounds(s, i + 1);
        if j < s.len() {
            let t = st.toks[0];
            assert(t.lexeme =~= s.subrange(i, j + 1));
            assert(t.lexeme[0] == '"');
            assert(t.lexeme[t.lexeme.len() - 1] == s[j]);
            assert forall|k: int| 1 <= k < t.lexeme.len() - 1 implies (#[trigger] t.lexeme[k])
                != '"' by {
                assert(t.lexeme[k] == s[i + k]);
            }
            assert(t.token_type->Str_literal =~= t.lexeme.subrange(1, t.lexeme.len() - 1));
        }
    } else if !special_char(c) && is_digit_char(c) {
        let end = num_end(s, i + 1);
        let d = digits_end(s, i + 1);
        lemma_digits_end_bounds(s, i + 1);
        let t = st.toks[0];
        let lexeme = s.subrange(i, end);
        if d < s.len() && s[d] == '.' && d + 1 < s.len() && is_digit_char(s[d + 1]) {
            lemma_digits_end_bounds(s, d + 1);
            let dotpos = d - i;
            assert(lexeme[dotpos] == '.');
            assert forall|m: int| 0 <= m < dotpos implies is_digit_char(
                #[trigger] lexeme.subrange(0, dotpos)[m],
            ) by {
                assert(lexeme.subrange(0, dotpos)[m] == s[i + m]);
            }
            assert forall|m: int| 0 <= m < lexeme.len() - dotpos - 1 implies is_digit_char(
                #[trigger] lexeme.subrange(dotpos + 1, lexeme.len() as int)[m],
            ) by {
                assert(lexeme.subrange(dotpos + 1, lexeme.len() as int)[m] == s[d + 1 + m]);
            }
            assert(crate::numeric::all_digits(lexeme.subrange(0, dotpos)));
            assert(crate::numeric::all_digits(lexeme.subrange(dotpos + 1, lexeme.len() as int)));
            assert(1 <= dotpos < lexeme.len() - 1);
            assert(is_number_lexeme(lexeme));
        } else {
            assert forall|m: int| 0 <= m < lexeme.len() implies is_digit_char(
                #[trigger] lexeme[m],
            ) by {
                assert(lexeme[m] == s[i + m]);
            }
            assert(is_number_lexeme(lexeme));
        }
        assert(lexeme[0] == c);
    } else if !special_char(c) && !is_digit_char(c) && (is_alpha(c) || c == '_') {
        let end = ident_end(s, i + 1);
        lemma_ident_end_bounds(s, i + 1);
        let t = st.toks[0];
        let lexeme = s.subrange(i, end);
        assert(lexeme[0] == c);
        assert forall|k: int| 1 <= k < lexeme.len() implies is_ident_char(
            #[trigger] lexeme[k],
        ) by {
            assert(lexeme[k] == s[i + k]);
        }
        assert(ident_shape(lexeme));
        assert(t.token_type == ident_kind(lexeme));
        match ident_kind(lexeme) {
            TokenTypeV::Eof => {
                assert(false);
            },
            _ => {},
        }
    } else {
    }
}

/// Scanning one well-formed lexeme on its own yields exactly one token of the
/// same kind, then the end of the input: every lexeme the lexer produces
/// re-scans to its own token.
pub proof fn lemma_relex_token(t: TokenV)
    requires
        token_lexeme_wf(t),
    ensures
        ({
            let out = lex_from(t.lexeme, 0, 1).toks;
            &&& out.len() == 2
            &&& out[0].token_type == t.token_type
            &&& out[0].lexeme =~= t.lexeme
            &&& out[1].token_type is Eof
        }),
{
    let s = t.lexeme;
    let st = lex_step(s, 0, 1);
    lemma_lex_step_advances(s, 0, 1);
    match t.token_type {
        TokenTypeV::Str { literal } => {
            lemma_str_end_exact(s, 1, s.len() - 1);
            assert(st.toks[0].lexeme =~= s.subrange(0, s.len() as int));
            assert(st.toks[0].lexeme =~= s);
            assert(st.toks[0].token_type->Str_literal =~= literal);
        },
        TokenTypeV::Number { literal } => {
            if s.len() > 0 && crate::numeric::all_digits(s) {
                lemma_digits_end_exact(s, 1, s.len() as int);
                assert(num_end(s, 1) == s.len());
            } else {
                let k = choose|k: int|
                    1 <= k < s.len() - 1 && s[k] == '.' && crate::numeric::all_digits(
                        #[trigger] s.subrange(0, k),
                    ) && crate::numeric::all_digits(s.subrange(k + 1, s.len() as int));
                assert forall|m: int| 1 <= m < k implies is_digit_char(#[trigger] s[m]) by {
                    assert(s.subrange(0, k)[m] == s[m]);
                }
                assert(!is_digit_char(s[k]));
                lemma_digits_end_exact(s, 1, k);
                assert(is_digit_char(s.subrange(k + 1, s.len() as int)[0]));
                assert forall|m: int| k + 1 <= m < s.len() implies is_digit_char(
                    #[trigger] s[m],
                ) by {
                    assert(s.subrange(k + 1, s.len() as int)[m - k - 1] == s[m]);
                }
                lemma_digits_end_exact(s, k + 1, s.len() as int);
                assert(num_end(s, 1) == s.len());
            }
            assert(st.toks[0].lexeme =~= s.subrange(0, s.len() as int));
            assert(st.toks[0].lexeme =~= s);
        },
        TokenTypeV::Eof => {
            assert(false);
        },
        TokenTypeV::LeftParen => {},
        TokenTypeV::RightParen => {},
        TokenTypeV::LeftBrace => {},
        TokenTypeV::RightBrace => {},
        TokenTypeV::Comma => {},
        TokenTypeV::Dot => {},
        TokenTypeV::Minus => {},
        TokenTypeV::Plus => {},
        TokenTypeV::Semicolon => {},
        TokenTypeV::Slash => {},
        TokenTypeV::Star => {},
        TokenTypeV::Bang => {},
        TokenTypeV::BangEqual => {},
        TokenTypeV::Equal => {},
        TokenTypeV::EqualEqual => {},
        TokenTypeV::Greater => {},
        TokenTypeV::GreaterEqual => {},
        TokenTypeV::Less => {},
        TokenTypeV::LessEqual => {},
        TokenTypeV::Gives => {},
        _ => {
            assert(ident_shape(s));
            lemma_ident_end_exact(s, 1, s.len() as int);
            assert(st.toks[0].lexeme =~= s.subrange(0, s.len() as int));
            assert(st.toks[0].lexeme =~= s);
            assert(st.toks[0].token_type == ident_kind(s));
        },
    }
    let out = lex_from(s, 0, 1).toks;
    assert(out =~= st.toks + lex_from(s, st.next, st.line2).toks);
}

/// Tokens carry the line they end on, which never precedes the line the scan
/// began on: a scan from line one gives every token a positive line.
pub proof fn lemma_lex_token_lines(s: Seq<char>, i: int, line: int)
    ensures
        forall|k: int|
            0 <= k < lex_from(s, i, line).toks.len() ==> (#[trigger] lex_from(
                s,
                i,
                line,
            ).toks[k]).line >= line,
    decreases s.len() - i,
{
    if 0 <= i < s.len() {
        let st = lex_step(s, i, line);
        lemma_lex_step_advances(s, i, line);
        lemma_lex_token_lines(s, st.next, st.line2);
        if s[i] == '"' {
            lemma_str_end_bounds(s, i + 1);
            lemma_count_nl_bounds(s, i + 1, str_end(s, i + 1));
        }
        let toks = lex_from(s, i, line).toks;
        assert(toks =~= st.toks + lex_from(s, st.next, st.line2).toks);
        assert forall|k: int| 0 <= k < toks.len() implies (#[trigger] toks[k]).line >= line by {
            if k < st.toks.len() {
                assert(toks[k] == st.toks[k]);
            } else {
                assert(toks[k] == lex_from(s, st.next, st.line2).toks[k - st.toks.len()]);
            }
        }
    }
}

/// Re-scanning the lexeme of any token a scan produced yields a token of the
/// same kind, literals included.
pub proof fn lemma_relex_scanned_token(s: Seq<char>, i: int, line: int, k: int)
    requires
        0 <= k < lex_from(s, i, line).toks.len() - 1,
    ensures
        ({
            let t = lex_from(s, i, line).toks[k];
            let out = lex_from(t.lexeme, 0, 1).toks;
            &&& out.len() == 2
            &&& out[0].token_type == t.token_type
            &&& out[1].token_type is Eof
        }),
{
    lemma_lex_tokens_wf(s, i, line);
    lemma_relex_token(lex_from(s, i, line).toks[k]);
}

} // verus!
