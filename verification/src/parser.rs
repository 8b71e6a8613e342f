//! The parser: recursive descent over the token stream. Contracts state the
//! token-stream discipline — the cursor stays in bounds, moves forward, and
//! strictly forward on success, which is what terminates every loop here and
//! in callers — and that every failure leaves a diagnostic.
use crate::error::{parser_diag, parser_error, Error};
use crate::expr::{Expr, LiteralValue};
use crate::lexer::{diags_v, lex_from, toks_v};
use crate::stmt::Stmt;
use crate::tokens::{Token, TokenType, TokenTypeV, TokenV};
use vstd::prelude::*;

verus! {

/// Whether a declaration kind is the word for functions (else: methods).
fn str_eq_kind(kind: &str) -> bool {
    crate::tokens::str_eq(kind, "function")
}

/// A token stream the parser accepts: it ends with an end-of-file token.
pub open spec fn wf_toksv(ts: Seq<TokenV>) -> bool {
    ts.len() >= 1 && ts.last().token_type is Eof
}

/// The lexer's output always ends with the end-of-file token.
pub proof fn lemma_lex_from_wf(s: Seq<char>, i: int, line: int)
    ensures
        wf_toksv(lex_from(s, i, line).toks),
    decreases s.len() - i,
{
    if 0 <= i < s.len() {
        let st = crate::lexer::lex_step(s, i, line);
        if !(st.next <= i || st.next > s.len()) {
            lemma_lex_from_wf(s, st.next, st.line2);
            assert(lex_from(s, i, line).toks.last() == lex_from(s, st.next, st.line2).toks.last());
        } else {
            crate::lexer::lemma_lex_step_advances(s, i, line);
        }
    }
}

/// Whether two token kinds are the same, literals included.
pub fn tt_eq(a: &TokenType, b: &TokenType) -> (r: bool)
    ensures
        r == (a@ == b@),
{
    match (a, b) {
        (TokenType::LeftParen, TokenType::LeftParen) => true,
        (TokenType::RightParen, TokenType::RightParen) => true,
        (TokenType::LeftBrace, TokenType::LeftBrace) => true,
        (TokenType::RightBrace, TokenType::RightBrace) => true,
        (TokenType::Comma, TokenType::Comma) => true,
        (TokenType::Dot, TokenType::Dot) => true,
        (TokenType::Minus, TokenType::Minus) => true,
        (TokenType::Plus, TokenType::Plus) => true,
        (TokenType::Semicolon, TokenType::Semicolon) => true,
        (TokenType::Slash, TokenType::Slash) => true,
        (TokenType::Star, TokenType::Star) => true,
        (TokenType::Bang, TokenType::Bang) => true,
        (TokenType::BangEqual, TokenType::BangEqual) => true,
        (TokenType::Equal, TokenType::Equal) => true,
        (TokenType::EqualEqual, TokenType::EqualEqual) => true,
        (TokenType::Greater, TokenType::Greater) => true,
        (TokenType::GreaterEqual, TokenType::GreaterEqual) => true,
        (TokenType::Less, TokenType::Less) => true,
        (TokenType::LessEqual, TokenType::LessEqual) => true,
        (TokenType::Identifier, TokenType::Identifier) => true,
        (TokenType::Str { literal: l }, TokenType::Str { literal: r2 }) => crate::tokens::str_eq(
            l.as_str(),
            r2.as_str(),
        ),
        (TokenType::Number { literal: l }, TokenType::Number { literal: r2 }) => l == r2,
        (TokenType::And, TokenType::And) => true,
        (TokenType::Class, TokenType::Class) => true,
        (TokenType::Else, TokenType::Else) => true,
        (TokenType::False, TokenType::False) => true,
        (TokenType::Fn, TokenType::Fn) => true,
        (TokenType::Gives, TokenType::Gives) => true,
        (TokenType::For, TokenType::For) => true,
        (TokenType::If, TokenType::If) => true,
        (TokenType::Nil, TokenType::Nil) => true,
        (TokenType::Or, TokenType::Or) => true,
        (TokenType::Print, TokenType::Print) => true,
        (TokenType::Return, TokenType::Return) => true,
        (TokenType::Super, TokenType::Super) => true,
        (TokenType::This, TokenType::This) => true,
        (TokenType::True, TokenType::True) => true,
        (TokenType::Var, TokenType::Var) => true,
        (TokenType::While, TokenType::While) => true,
        (TokenType::Eof, TokenType::Eof) => true,
        _ => false,
    }
}

pub struct Parser {
    pub tokens: Vec<Token>,
    pub current: usize,
    pub next_id: u64,
    pub diags: Vec<String>,
}

/// The shape `for` desugars to: a `while` loop, inside a two-statement block
/// when the loop has an initializer, with the loop last.
pub open spec fn for_shape(s: Stmt) -> bool {
    ||| s is While
    ||| (s matches Stmt::Block { statements } && statements@.len() == 2 && statements@[1] is While)
}

/// What every parsing step maintains: the same well-formed token stream and a
/// forward-moving cursor, and diagnostics that only accumulate.
pub open spec fn steps(pre: Parser, post: Parser) -> bool {
    &&& post.wf()
    &&& post.tokens == pre.tokens
    &&& pre.current <= post.current
    &&& diags_v(pre.diags@).is_prefix_of(diags_v(post.diags@))
}

impl Parser {
    pub open spec fn wf(&self) -> bool {
        &&& wf_toksv(toks_v(self.tokens@))
        &&& self.current < self.tokens@.len()
    }

    pub open spec fn peek_kind(&self) -> TokenTypeV {
        self.tokens@[self.current as int]@.token_type
    }

    pub open spec fn left(&self) -> int {
        self.tokens@.len() - self.current
    }

    pub fn new(tokens: Vec<Token>) -> (p: Parser)
        requires
            wf_toksv(toks_v(tokens@)),
        ensures
            p.wf(),
            p.tokens == tokens,
            p.current == 0,
            p.diags@ =~= Seq::<String>::empty(),
    {
        Parser { tokens, current: 0, next_id: 0, diags: Vec::new() }
    }

    fn peek(&self) -> (t: &Token)
        requires
            self.wf(),
        ensures
            t == &self.tokens@[self.current as int],
    {
        &self.tokens[self.current]
    }

    fn previous(&self) -> (t: &Token)
        requires
            self.wf(),
            self.current >= 1,
        ensures
            t == &self.tokens@[self.current as int - 1],
    {
        &self.tokens[self.current - 1]
    }

    fn is_at_end(&self) -> (r: bool)
        requires
            self.wf(),
        ensures
            r == (self.peek_kind() is Eof),
    {
        matches!(self.peek().token_type, TokenType::Eof)
    }

    fn advance(&mut self) -> (t: &Token)
        requires
            old(self).wf(),
            old(self).current >= 1 || !(old(self).peek_kind() is Eof),
        ensures
            final(self).wf(),
            final(self).tokens == old(self).tokens,
            final(self).diags == old(self).diags,
            final(self).next_id == old(self).next_id,
            final(self).current == old(self).current + if old(self).peek_kind() is Eof {
                0int
            } else {
                1int
            },
            final(self).current >= 1 ==> t == &final(self).tokens@[final(self).current - 1],
            old(self).peek_kind() is Eof ==> final(self).current == old(self).current,
    {
        if !self.is_at_end() {
            let n = self.tokens.len();
            proof {
                let ts = toks_v(self.tokens@);
                assert(ts.last() == self.tokens@[self.tokens@.len() - 1]@);
                assert(ts[self.current as int] == self.tokens@[self.current as int]@);
                assert(self.current < n - 1);
            }
            self.current = self.current + 1;
        }
        self.previous()
    }

    fn check(&self, t_type: &TokenType) -> (r: bool)
        requires
            self.wf(),
        ensures
            r == (!(self.peek_kind() is Eof) && self.peek_kind() == t_type@),
    {
        if self.is_at_end() {
            return false;
        }
        tt_eq(&self.peek().token_type, t_type)
    }

    /// Consumes the next token when its kind is one of those given.
    fn t_match(&mut self, token_type: &[TokenType]) -> (r: bool)
        requires
            old(self).wf(),
        ensures
            steps(*old(self), *final(self)),
            final(self).diags == old(self).diags,
            final(self).next_id == old(self).next_id,
            r == (!(old(self).peek_kind() is Eof) && exists|k: int|
                0 <= k < token_type@.len() && old(self).peek_kind() == token_type@[k]@),
            final(self).current == old(self).current + if r {
                1int
            } else {
                0int
            },
    {
        let n = token_type.len();
        let mut i: usize = 0;
        while i < n
            invariant
                self.wf(),
                i <= n,
                n == token_type@.len(),
                *self == *old(self),
                forall|k: int|
                    0 <= k < i ==> !(!(self.peek_kind() is Eof) && self.peek_kind() == (
                    #[trigger] token_type@[k])@),
            decreases n - i,
        {
            if self.check(&token_type[i]) {
                self.advance();
                return true;
            }
            i = i + 1;
        }
        false
    }

    /// Records a parse diagnostic at a token and yields the parse error.
    fn error(&mut self, at: usize, msg: &str) -> (r: Error)
        requires
            old(self).wf(),
            at < old(self).tokens@.len(),
        ensures
            steps(*old(self), *final(self)),
            final(self).current == old(self).current,
            final(self).next_id == old(self).next_id,
            diags_v(final(self).diags@) =~= diags_v(old(self).diags@) + seq![
                parser_diag(old(self).tokens@[at as int]@, msg@),
            ],
            r is Parse,
    {
        let d = parser_error(&self.tokens[at], msg);
        proof {
            crate::lexer::lemma_diags_v_push(self.diags@, d);
            assert(diags_v(self.diags@).is_prefix_of(diags_v(self.diags@.push(d))));
        }
        self.diags.push(d);
        Error::Parse
    }

    /// Consumes a token of the expected kind, or records a diagnostic at the
    /// offending token and fails.
    fn consume(&mut self, t_type: TokenType, msg: &str) -> (r: Result<Token, Error>)
        requires
            old(self).wf(),
        ensures
            steps(*old(self), *final(self)),
            final(self).next_id == old(self).next_id,
            match r {
                Ok(t) => {
                    &&& !(old(self).peek_kind() is Eof)
                    &&& old(self).peek_kind() == t_type@
                    &&& t@ == old(self).tokens@[old(self).current as int]@
                    &&& final(self).current == old(self).current + 1
                    &&& final(self).diags == old(self).diags
                },
                Err(e) => {
                    &&& e is Parse
                    &&& final(self).current == old(self).current
                    &&& diags_v(final(self).diags@) =~= diags_v(old(self).diags@) + seq![
                        parser_diag(old(self).tokens@[old(self).current as int]@, msg@),
                    ]
                },
            },
    {
        if self.check(&t_type) {
            let t = self.advance().duplicate();
            Ok(t)
        } else {
            Err(self.error(self.current, msg))
        }
    }

    /// Parses the whole program: declarations up to the end of the input. An
    /// empty token stream is the empty program; anything else parses to at
    /// least one declaration or fails with a diagnostic.
    pub fn parse(&mut self) -> (r: Result<Vec<Stmt>, Error>)
        requires
            old(self).wf(),
        ensures
            steps(*old(self), *final(self)),
            r is Ok ==> final(self).peek_kind() is Eof,
            r is Err ==> diags_v(final(self).diags@).len() > diags_v(old(self).diags@).len(),
            old(self).peek_kind() is Eof ==> (r matches Ok(stmts) && stmts@.len() == 0),
            !(old(self).peek_kind() is Eof) ==> (r matches Ok(stmts) ==> stmts@.len() > 0),
        decreases old(self).left(), 45int,
    {
        let mut statements: Vec<Stmt> = Vec::new();
        while !self.is_at_end()
            invariant
                steps(*old(self), *self),
                statements@.len() > 0 || *self == *old(self),
                old(self).peek_kind() is Eof ==> (statements@.len() == 0 && *self == *old(self)),
            decreases self.left(),
        {
            match self.declaration() {
                Ok(stmt) => statements.push(stmt),
                Err(e) => {
                    return Err(e);
                },
            }
        }
        Ok(statements)
    }

    /// Parses one declaration: the leading keyword decides its kind.
    fn declaration(&mut self) -> (r: Result<Stmt, Error>)
        requires
            old(self).wf(),
        ensures
            steps(*old(self), *final(self)),
            r is Ok ==> final(self).current > old(self).current,
            r is Err ==> diags_v(final(self).diags@).len() > diags_v(old(self).diags@).len(),
            old(self).peek_kind() is Var ==> (r matches Ok(s) ==> s is Var),
            old(self).peek_kind() is Fn ==> (r matches Ok(s) ==> s is FxFx),
            old(self).peek_kind() is Class ==> (r matches Ok(s) ==> s is Class),
        decreases old(self).left(), 40int,
    {
        if self.t_match(&[TokenType::Var]) {
            self.var_decl()
        } else if self.t_match(&[TokenType::Fn]) {
            self.function("function")
        } else if self.t_match(&[TokenType::Class]) {
            self.class_decl()
        } else {
            self.statement()
        }
    }

    fn var_decl(&mut self) -> (r: Result<Stmt, Error>)
        requires
            old(self).wf(),
        ensures
            steps(*old(self), *final(self)),
            r is Ok ==> final(self).current > old(self).current,
            r is Err ==> diags_v(final(self).diags@).len() > diags_v(old(self).diags@).len(),
            r matches Ok(s) ==> s is Var,
        decreases old(self).left(), 35int,
    {
        let name = self.consume(TokenType::Identifier, "Expect a variable name.")?;
        let init = if self.t_match(&[TokenType::Equal]) {
            Some(self.expression()?)
        } else {
            None
        };
        let _ = self.consume(TokenType::Semicolon, "Expect ';' after variable declaration");
        Ok(Stmt::Var { name, initializer: init })
    }

    /// Parses one statement: the leading token decides its kind, and anything
    /// that starts no statement form is an expression statement.
    fn statement(&mut self) -> (r: Result<Stmt, Error>)
        requires
            old(self).wf(),
        ensures
            steps(*old(self), *final(self)),
            r is Ok ==> final(self).current > old(self).current,
            r is Err ==> diags_v(final(self).diags@).len() > diags_v(old(self).diags@).len(),
            old(self).peek_kind() is Print ==> (r matches Ok(s) ==> s is Print),
            old(self).peek_kind() is Return ==> (r matches Ok(s) ==> s is Return),
            old(self).peek_kind() is If ==> (r matches Ok(s) ==> s is If),
            old(self).peek_kind() is While ==> (r matches Ok(s) ==> s is While),
            old(self).peek_kind() is LeftBrace ==> (r matches Ok(s) ==> s is Block),
            old(self).peek_kind() is For ==> (r matches Ok(s) ==> for_shape(s)),
            !(old(self).peek_kind() is Print || old(self).peek_kind() is Return || old(
                self,
            ).peek_kind() is If || old(self).peek_kind() is While || old(self).peek_kind() is For
                || old(self).peek_kind() is LeftBrace) ==> (r matches Ok(s) ==> s is Expression),
        decreases old(self).left(), 39int,
    {
        if self.t_match(&[TokenType::Print]) {
            self.print_statement()
        } else if self.t_match(&[TokenType::Return]) {
            self.return_stmt()
        } else if self.t_match(&[TokenType::If]) {
            self.if_stmt()
        } else if self.t_match(&[TokenType::While]) {
            self.while_stmt()
        } else if self.t_match(&[TokenType::For]) {
            self.for_stmt()
        } else if self.t_match(&[TokenType::LeftBrace]) {
            Ok(Stmt::Block { statements: self.block()? })
        } else {
            self.expr_statement()
        }
    }

    fn block(&mut self) -> (r: Result<Vec<Stmt>, Error>)
        requires
            old(self).wf(),
        ensures
            steps(*old(self), *final(self)),
            r is Ok ==> final(self).current > old(self).current,
            r is Err ==> diags_v(final(self).diags@).len() > diags_v(old(self).diags@).len(),
        decreases old(self).left(), 41int,
    {
        let mut statements: Vec<Stmt> = Vec::new();
        while !self.check(&TokenType::RightBrace) && !self.is_at_end()
            invariant
                steps(*old(self), *self),
            decreases self.left(),
        {
            let stmt = self.declaration()?;
            statements.push(stmt);
        }
        let _brace = self.consume(TokenType::RightBrace, "Expect '}' after block")?;
        Ok(statements)
    }

    fn if_stmt(&mut self) -> (r: Result<Stmt, Error>)
        requires
            old(self).wf(),
        ensures
            steps(*old(self), *final(self)),
            r is Ok ==> final(self).current > old(self).current,
            r is Err ==> diags_v(final(self).diags@).len() > diags_v(old(self).diags@).len(),
            r matches Ok(s) ==> s is If,
        decreases old(self).left(), 35int,
    {
        let _ = self.consume(TokenType::LeftParen, "Expect '(' after 'if'.");
        let condition = self.expression()?;
        let _ = self.consume(TokenType::RightParen, "Expect ')' after if condition");
        let then_branch = Box::new(self.statement()?);
        let else_branch = if self.t_match(&[TokenType::Else]) {
            Some(Box::new(self.statement()?))
        } else {
            None
        };
        Ok(Stmt::If { condition, else_branch, then_branch })
    }

    fn return_stmt(&mut self) -> (r: Result<Stmt, Error>)
        requires
            old(self).wf(),
            old(self).current >= 1,
        ensures
            steps(*old(self), *final(self)),
            r is Ok ==> final(self).current > old(self).current,
            r is Err ==> diags_v(final(self).diags@).len() > diags_v(old(self).diags@).len(),
            r matches Ok(s) ==> s is Return,
        decreases old(self).left(), 35int,
    {
        let keyword: Token = self.previous().duplicate();
        let val = if !self.check(&TokenType::Semicolon) {
            Some(self.expression()?)
        } else {
            None
        };
        let _semi = self.consume(TokenType::Semicolon, "Expect ';' after return.")?;
        Ok(Stmt::Return { keyword, value: val })
    }

    fn function(&mut self, kind: &str) -> (r: Result<Stmt, Error>)
        requires
            old(self).wf(),
        ensures
            steps(*old(self), *final(self)),
            r is Ok ==> final(self).current > old(self).current,
            r is Err ==> diags_v(final(self).diags@).len() > diags_v(old(self).diags@).len(),
            r matches Ok(s) ==> s is FxFx,
        decreases old(self).left(), 36int,
    {
        let is_function = str_eq_kind(kind);
        let name = if is_function {
            self.consume(TokenType::Identifier, "Expect function name.")?
        } else {
            self.consume(TokenType::Identifier, "Expect method name.")?
        };
        let _ = if is_function {
            self.consume(TokenType::LeftParen, "Expect '(' after function name.")?
        } else {
            self.consume(TokenType::LeftParen, "Expect '(' after method name.")?
        };
        let mut params: Vec<Token> = Vec::new();
        if !self.check(&TokenType::RightParen) {
            let mut more = true;
            while more
                invariant
                    steps(*old(self), *self),
                    self.current > old(self).current,
                decreases self.left(), if more {
                    1int
                } else {
                    0int
                },
            {
                if params.len() >= 255 {
                    self.error(self.current, "Cannot have more than 255 params");
                }
                params.push(self.consume(TokenType::Identifier, "Expect param name,")?);
                more = self.t_match(&[TokenType::Comma]);
            }
        }
        let _rp = self.consume(TokenType::RightParen, "Expect ')' after params.")?;
        let _gives = self.consume(TokenType::Gives, "Expected -> after fn declaration")?;
        let _lb = if is_function {
            self.consume(TokenType::LeftBrace, "Expect '{' before function body.")?
        } else {
            self.consume(TokenType::LeftBrace, "Expect '{' before method body.")?
        };
        let body = self.block()?;
        Ok(Stmt::FxFx { name, params, body })
    }

    /// Parses a class declaration; a superclass, when present, is always a
    /// variable reference.
    fn class_decl(&mut self) -> (r: Result<Stmt, Error>)
        requires
            old(self).wf(),
        ensures
            steps(*old(self), *final(self)),
            r is Ok ==> final(self).current > old(self).current,
            r is Err ==> diags_v(final(self).diags@).len() > diags_v(old(self).diags@).len(),
            r matches Ok(s) ==> s matches Stmt::Class { name, superclass, methods } && (match superclass {
                Some(e) => e is Variable,
                None => true,
            }),
        decreases old(self).left(), 35int,
    {
        let name = self.consume(TokenType::Identifier, "Expect class name.")?;
        let superclass = if self.t_match(&[TokenType::Less]) {
            let _sup = self.consume(TokenType::Identifier, "Expect superclass name.")?;
            let sup_name = self.previous().duplicate();
            let id = self.fresh_id();
            Some(Expr::Variable { id, name: sup_name })
        } else {
            None
        };
        let _gives = self.consume(TokenType::Gives, "Expected -> after class declaration.")?;
        let _lb = self.consume(TokenType::LeftBrace, "Expect '{' before class body.")?;
        let mut methods: Vec<Stmt> = Vec::new();
        while !self.check(&TokenType::RightBrace) && !self.is_at_end()
            invariant
                steps(*old(self), *self),
                self.current > old(self).current,
            decreases self.left(),
        {
            let m = self.function("method")?;
            methods.push(m);
        }
        let _rb = self.consume(TokenType::RightBrace, "Expect '}' after class body")?;
        Ok(Stmt::Class { name, superclass, methods })
    }

    fn while_stmt(&mut self) -> (r: Result<Stmt, Error>)
        requires
            old(self).wf(),
        ensures
            steps(*old(self), *final(self)),
            r is Ok ==> final(self).current > old(self).current,
            r is Err ==> diags_v(final(self).diags@).len() > diags_v(old(self).diags@).len(),
            r matches Ok(s) ==> s is While,
        decreases old(self).left(), 35int,
    {
        let _ = self.consume(TokenType::LeftParen, "Expect '(' after 'while'.");
        let condition = self.expression()?;
        let _ = self.consume(TokenType::RightParen, "Expect ')' after condition.");
        let body = Box::new(self.statement()?);
        Ok(Stmt::While { condition, statement: body })
    }

    /// A `for` statement is desugared at parse time into a block holding the
    /// initializer and a `while` loop whose body ends with the increment.
    fn for_stmt(&mut self) -> (r: Result<Stmt, Error>)
        requires
            old(self).wf(),
        ensures
            steps(*old(self), *final(self)),
            r is Ok ==> final(self).current > old(self).current,
            r is Err ==> diags_v(final(self).diags@).len() > diags_v(old(self).diags@).len(),
            r matches Ok(s) ==> for_shape(s),
        decreases old(self).left(), 35int,
    {
        let _ = self.consume(TokenType::LeftParen, "Expect '(' after 'for'");
        let init = if self.t_match(&[TokenType::Semicolon]) {
            None
        } else if self.t_match(&[TokenType::Var]) {
            Some(self.var_decl()?)
        } else {
            Some(self.expr_statement()?)
        };
        let condition = if !self.t_match(&[TokenType::Semicolon]) {
            Some(self.expression()?)
        } else {
            None
        };
        let _ = self.consume(TokenType::Semicolon, "Expeect ';' after loop condition");
        let increment = if !self.check(&TokenType::RightParen) {
            Some(self.expression()?)
        } else {
            None
        };
        let _rp = self.consume(TokenType::RightParen, "Expect ')' after for clauses.")?;

        let mut body = self.statement()?;
        if let Some(inc) = increment {
            let inc_stmt = Stmt::Expression { expr: inc };
            let mut statements: Vec<Stmt> = Vec::new();
            statements.push(body);
            statements.push(inc_stmt);
            body = Stmt::Block { statements };
        }
        body = Stmt::While {
            condition: match condition {
                Some(c) => c,
                None => Expr::Literal { val: LiteralValue::Boolean(true) },
            },
            statement: Box::new(body),
        };
        if let Some(init_stmt) = init {
            let mut statements: Vec<Stmt> = Vec::new();
            statements.push(init_stmt);
            statements.push(body);
            body = Stmt::Block { statements };
        }
        Ok(body)
    }

    fn print_statement(&mut self) -> (r: Result<Stmt, Error>)
        requires
            old(self).wf(),
        ensures
            steps(*old(self), *final(self)),
            r is Ok ==> final(self).current > old(self).current,
            r is Err ==> diags_v(final(self).diags@).len() > diags_v(old(self).diags@).len(),
            r matches Ok(s) ==> s is Print,
        decreases old(self).left(), 30int,
    {
        let value = self.expression()?;
        let _semi = self.consume(TokenType::Semicolon, "Expect ';' after value")?;
        Ok(Stmt::Print { expr: value })
    }

    fn expr_statement(&mut self) -> (r: Result<Stmt, Error>)
        requires
            old(self).wf(),
        ensures
            steps(*old(self), *final(self)),
            r is Ok ==> final(self).current > old(self).current,
            r is Err ==> diags_v(final(self).diags@).len() > diags_v(old(self).diags@).len(),
            r matches Ok(s) ==> s is Expression,
        decreases old(self).left(), 30int,
    {
        let expr = self.expression()?;
        let _semi = self.consume(TokenType::Semicolon, "Expect ';' after expression.")?;
        Ok(Stmt::Expression { expr })
    }

    fn expression(&mut self) -> (r: Result<Expr, Error>)
        requires
            old(self).wf(),
        ensures
            steps(*old(self), *final(self)),
            r is Ok ==> final(self).current > old(self).current,
            r is Err ==> diags_v(final(self).diags@).len() > diags_v(old(self).diags@).len(),
        decreases old(self).left(), 28int,
    {
        self.assignment()
    }

    /// Assignment is right-associative; a left side that is neither a variable
    /// nor a property access is a diagnostic, and the left side still stands.
    fn assignment(&mut self) -> (r: Result<Expr, Error>)
        requires
            old(self).wf(),
        ensures
            steps(*old(self), *final(self)),
            r is Ok ==> final(self).current > old(self).current,
            r is Err ==> diags_v(final(self).diags@).len() > diags_v(old(self).diags@).len(),
        decreases old(self).left(), 27int,
    {
        let expr = self.or_()?;
        if self.t_match(&[TokenType::Equal]) {
            let val = Box::new(self.assignment()?);
            match expr {
                Expr::Variable { id: _, name } => {
                    let id = self.fresh_id();
                    return Ok(Expr::Assign { id, name, val });
                },
                Expr::Get { object, name } => {
                    return Ok(Expr::SetProp { object, name, value: val });
                },
                other => {
                    self.error(self.current - 1, "Invalid assignment target.");
                    return Ok(other);
                },
            }
        }
        Ok(expr)
    }

    fn or_(&mut self) -> (r: Result<Expr, Error>)
        requires
            old(self).wf(),
        ensures
            steps(*old(self), *final(self)),
            r is Ok ==> final(self).current > old(self).current,
            r is Err ==> diags_v(final(self).diags@).len() > diags_v(old(self).diags@).len(),
        decreases old(self).left(), 26int,
    {
        let mut expr = self.and_()?;
        while self.t_match(&[TokenType::Or])
            invariant
                steps(*old(self), *self),
                self.current > old(self).current,
            decreases self.left(),
        {
            let op = self.previous().duplicate();
            let right = self.and_()?;
            expr = Expr::Logical { lhs: Box::new(expr), rhs: Box::new(right), op };
        }
        Ok(expr)
    }

    fn and_(&mut self) -> (r: Result<Expr, Error>)
        requires
            old(self).wf(),
        ensures
            steps(*old(self), *final(self)),
            r is Ok ==> final(self).current > old(self).current,
            r is Err ==> diags_v(final(self).diags@).len() > diags_v(old(self).diags@).len(),
        decreases old(self).left(), 25int,
    {
        let mut expr = self.equality()?;
        while self.t_match(&[TokenType::And])
            invariant
                steps(*old(self), *self),
                self.current > old(self).current,
            decreases self.left(),
        {
            let op = self.previous().duplicate();
            let right = self.equality()?;
            expr = Expr::Logical { lhs: Box::new(expr), op, rhs: Box::new(right) };
        }
        Ok(expr)
    }

    fn equality(&mut self) -> (r: Result<Expr, Error>)
        requires
            old(self).wf(),
        ensures
            steps(*old(self), *final(self)),
            r is Ok ==> final(self).current > old(self).current,
            r is Err ==> diags_v(final(self).diags@).len() > diags_v(old(self).diags@).len(),
        decreases old(self).left(), 24int,
    {
        let mut expr = self.comparison()?;
        while self.t_match(&[TokenType::BangEqual, TokenType::EqualEqual])
            invariant
                steps(*old(self), *self),
                self.current > old(self).current,
            decreases self.left(),
        {
            let op = self.previous().duplicate();
            let rhs = self.comparison()?;
            expr = Expr::Binary { lhs: Box::new(expr), rhs: Box::new(rhs), op };
        }
        Ok(expr)
    }

    fn comparison(&mut self) -> (r: Result<Expr, Error>)
        requires
            old(self).wf(),
        ensures
            steps(*old(self), *final(self)),
            r is Ok ==> final(self).current > old(self).current,
            r is Err ==> diags_v(final(self).diags@).len() > diags_v(old(self).diags@).len(),
        decreases old(self).left(), 23int,
    {
        let mut expr = self.term()?;
        while self.t_match(
            &[TokenType::Greater, TokenType::GreaterEqual, TokenType::Less, TokenType::LessEqual],
        )
            invariant
                steps(*old(self), *self),
                self.current > old(self).current,
            decreases self.left(),
        {
            let op = self.previous().duplicate();
            let rhs = self.term()?;
            expr = Expr::Binary { lhs: Box::new(expr), op, rhs: Box::new(rhs) };
        }
        Ok(expr)
    }

    fn term(&mut self) -> (r: Result<Expr, Error>)
        requires
            old(self).wf(),
        ensures
            steps(*old(self), *final(self)),
            r is Ok ==> final(self).current > old(self).current,
            r is Err ==> diags_v(final(self).diags@).len() > diags_v(old(self).diags@).len(),
        decreases old(self).left(), 22int,
    {
        let mut expr = self.factor()?;
        while self.t_match(&[TokenType::Minus, TokenType::Plus])
            invariant
                steps(*old(self), *self),
                self.current > old(self).current,
            decreases self.left(),
        {
            let op = self.previous().duplicate();
            let right = self.factor()?;
            expr = Expr::Binary { lhs: Box::new(expr), op, rhs: Box::new(right) };
        }
        Ok(expr)
    }

    fn factor(&mut self) -> (r: Result<Expr, Error>)
        requires
            old(self).wf(),
        ensures
            steps(*old(self), *final(self)),
            r is Ok ==> final(self).current > old(self).current,
            r is Err ==> diags_v(final(self).diags@).len() > diags_v(old(self).diags@).len(),
        decreases old(self).left(), 21int,
    {
        let mut expr = self.unary()?;
        while self.t_match(&[TokenType::Slash, TokenType::Star])
            invariant
                steps(*old(self), *self),
                self.current > old(self).current,
            decreases self.left(),
        {
            let op = self.previous().duplicate();
            let rhs = self.unary()?;
            expr = Expr::Binary { lhs: Box::new(expr), op, rhs: Box::new(rhs) };
        }
        Ok(expr)
    }

    fn unary(&mut self) -> (r: Result<Expr, Error>)
        requires
            old(self).wf(),
        ensures
            steps(*old(self), *final(self)),
            r is Ok ==> final(self).current > old(self).current,
            r is Err ==> diags_v(final(self).diags@).len() > diags_v(old(self).diags@).len(),
        decreases old(self).left(), 20int,
    {
        if self.t_match(&[TokenType::Bang, TokenType::Minus]) {
            let op = self.previous().duplicate();
            let right = self.unary()?;
            Ok(Expr::Unary { op, rhs: Box::new(right) })
        } else {
            self.call()
        }
    }

    fn call(&mut self) -> (r: Result<Expr, Error>)
        requires
            old(self).wf(),
        ensures
            steps(*old(self), *final(self)),
            r is Ok ==> final(self).current > old(self).current,
            r is Err ==> diags_v(final(self).diags@).len() > diags_v(old(self).diags@).len(),
        decreases old(self).left(), 19int,
    {
        let mut expr = self.primary()?;
        let mut go = true;
        while go
            invariant
                steps(*old(self), *self),
                self.current > old(self).current,
            decreases self.left(), if go {
                1int
            } else {
                0int
            },
        {
            if self.t_match(&[TokenType::LeftParen]) {
                expr = self.finish_call(expr)?;
            } else if self.t_match(&[TokenType::Dot]) {
                let name = self.consume(TokenType::Identifier, "Expect prop name after '.'")?;
                expr = Expr::Get { object: Box::new(expr), name };
            } else {
                go = false;
            }
        }
        Ok(expr)
    }

    fn finish_call(&mut self, callee: Expr) -> (r: Result<Expr, Error>)
        requires
            old(self).wf(),
            old(self).current >= 1,
        ensures
            steps(*old(self), *final(self)),
            r is Ok ==> final(self).current > old(self).current,
            r is Err ==> diags_v(final(self).diags@).len() > diags_v(old(self).diags@).len(),
        decreases old(self).left(), 29int,
    {
        let mut arguments: Vec<Expr> = Vec::new();
        if !self.check(&TokenType::RightParen) {
            let mut more = true;
            while more
                invariant
                    steps(*old(self), *self),
                decreases self.left(), if more {
                    1int
                } else {
                    0int
                },
            {
                if arguments.len() >= 255 {
                    self.error(self.current, "Cannot have more than 255 arguements.");
                }
                arguments.push(self.expression()?);
                more = self.t_match(&[TokenType::Comma]);
            }
        }
        let paren = self.consume(TokenType::RightParen, "Expect ')' after arguments")?;
        Ok(Expr::Call { callee: Box::new(callee), paren, arguments })
    }

    /// Parses a primary expression: the next token decides the node exactly —
    /// literals carry the token's payload, an identifier is a variable
    /// reference to that token, and a token that starts no expression is a
    /// diagnostic.
    fn primary(&mut self) -> (r: Result<Expr, Error>)
        requires
            old(self).wf(),
        ensures
            steps(*old(self), *final(self)),
            r is Ok ==> final(self).current > old(self).current,
            r is Err ==> diags_v(final(self).diags@).len() > diags_v(old(self).diags@).len(),
            old(self).peek_kind() is False ==> (r matches Ok(e) && e matches Expr::Literal { val }
                && val matches LiteralValue::Boolean(b) && b == false && final(self).current == old(
                self,
            ).current + 1),
            old(self).peek_kind() is True ==> (r matches Ok(e) && e matches Expr::Literal { val }
                && val matches LiteralValue::Boolean(b) && b == true && final(self).current == old(
                self,
            ).current + 1),
            old(self).peek_kind() is Nil ==> (r matches Ok(e) && e matches Expr::Literal { val }
                && val is Nil && final(self).current == old(self).current + 1),
            old(self).peek_kind() matches TokenTypeV::Str { literal } ==> (r matches Ok(e)
                && e matches Expr::Literal { val } && val matches LiteralValue::Str(s2) && s2@
                == literal && final(self).current == old(self).current + 1),
            old(self).peek_kind() matches TokenTypeV::Number { literal } ==> (r matches Ok(e)
                && e matches Expr::Literal { val } && val matches LiteralValue::Number(n) && n
                == literal && final(self).current == old(self).current + 1),
            old(self).peek_kind() is Identifier ==> (r matches Ok(e) && e matches Expr::Variable {
                id,
                name,
            } && name@ == old(self).tokens@[old(self).current as int]@ && final(self).current == old(
                self,
            ).current + 1),
            old(self).peek_kind() is This ==> (r matches Ok(e) && e matches Expr::This {
                id,
                keyword,
            } && keyword@ == old(self).tokens@[old(self).current as int]@ && final(self).current
                == old(self).current + 1),
            old(self).peek_kind() is Super ==> (r matches Ok(e) ==> e matches Expr::Super {
                id,
                keyword,
                method,
            } && keyword@ == old(self).tokens@[old(self).current as int]@),
            old(self).peek_kind() is LeftParen ==> (r matches Ok(e) ==> e is Grouping),
            !(old(self).peek_kind() is False || old(self).peek_kind() is True || old(
                self,
            ).peek_kind() is Nil || old(self).peek_kind() matches TokenTypeV::Str { literal } || old(
                self,
            ).peek_kind() matches TokenTypeV::Number { literal } || old(self).peek_kind()
                is Identifier || old(self).peek_kind() is This || old(self).peek_kind() is Super
                || old(self).peek_kind() is LeftParen) ==> r is Err,
        decreases old(self).left(), 17int,
    {
        let pk: Token = self.peek().duplicate();
        match pk.token_type {
            TokenType::False => {
                self.advance();
                Ok(Expr::Literal { val: LiteralValue::Boolean(false) })
            },
            TokenType::True => {
                self.advance();
                Ok(Expr::Literal { val: LiteralValue::Boolean(true) })
            },
            TokenType::Nil => {
                self.advance();
                Ok(Expr::Literal { val: LiteralValue::Nil })
            },
            TokenType::Str { literal } => {
                self.advance();
                Ok(Expr::Literal { val: LiteralValue::Str(literal) })
            },
            TokenType::Number { literal } => {
                self.advance();
                Ok(Expr::Literal { val: LiteralValue::Number(literal) })
            },
            TokenType::LeftParen => {
                self.advance();
                let expression = self.expression()?;
                let _rp = self.consume(TokenType::RightParen, "Expect ')' after expression")?;
                Ok(Expr::Grouping { expr: Box::new(expression) })
            },
            TokenType::Super => {
                let keyword = self.advance().duplicate();
                let _dot = self.consume(TokenType::Dot, "Expect '.' after 'super'")?;
                let method = self.consume(TokenType::Identifier, "Expect superclass method name.")?;
                let id = self.fresh_id();
                Ok(Expr::Super { id, keyword, method })
            },
            TokenType::This => {
                let keyword = self.advance().duplicate();
                let id = self.fresh_id();
                Ok(Expr::This { id, keyword })
            },
            TokenType::Identifier => {
                let name = self.advance().duplicate();
                let id = self.fresh_id();
                Ok(Expr::Variable { id, name })
            },
            _ => Err(self.error(self.current, "Expect expression.")),
        }
    }

    /// Discards tokens up to a statement boundary, where parsing can restart.
    pub fn sync(&mut self)
        requires
            old(self).wf(),
            old(self).current >= 1 || !(old(self).peek_kind() is Eof),
        ensures
            steps(*old(self), *final(self)),
    {
        self.advance();
        while !self.is_at_end()
            invariant
                steps(*old(self), *self),
                self.current >= 1,
            decreases self.left(),
        {
            if matches!(self.previous().token_type, TokenType::Semicolon) {
                return ;
            }
            match self.peek().token_type {
                TokenType::Class => {
                    return ;
                },
                TokenType::Fn => {
                    return ;
                },
                TokenType::Var => {
                    return ;
                },
                TokenType::For => {
                    return ;
                },
                TokenType::If => {
                    return ;
                },
                TokenType::While => {
                    return ;
                },
                TokenType::Print => {
                    return ;
                },
                TokenType::Return => {
                    return ;
                },
                _ => {},
            }
            self.advance();
        }
    }

    /// A fresh identifier for a variable-reference site.
    fn fresh_id(&mut self) -> (r: u64)
        requires
            old(self).wf(),
        ensures
            steps(*old(self), *final(self)),
            final(self).current == old(self).current,
            final(self).diags == old(self).diags,
    {
        let id = self.next_id;
        if self.next_id < 0xFFFF_FFFF_FFFF_FFFF {
            self.next_id = self.next_id + 1;
        }
        id
    }
}

} // verus!
