//! Statements of the language.
use crate::expr::Expr;
use crate::tokens::Token;
use vstd::prelude::*;

verus! {

#[derive(Debug)]
pub enum Stmt {
    FxFx { name: Token, params: Vec<Token>, body: Vec<Stmt> },
    Return { keyword: Token, value: Option<Expr> },
    Block { statements: Vec<Stmt> },
    Class { name: Token, superclass: Option<Expr>, methods: Vec<Stmt> },
    If { condition: Expr, else_branch: Option<Box<Stmt>>, then_branch: Box<Stmt> },
    While { condition: Expr, statement: Box<Stmt> },
    Expression { expr: Expr },
    Var { name: Token, initializer: Option<Expr> },
    Print { expr: Expr },
    Nil,
}

/// The number of nodes in a statement tree, the expressions in it included:
/// the measure that recursive walks over statements decrease.
pub open spec fn stmt_size(s: Stmt) -> nat
    decreases s,
{
    match s {
        Stmt::FxFx { name, params, body } => 1 + stmts_size(body@),
        Stmt::Return { keyword, value } => 1 + opt_expr_size(value),
        Stmt::Block { statements } => 1 + stmts_size(statements@),
        Stmt::Class { name, superclass, methods } => 1 + opt_expr_size(superclass) + stmts_size(
            methods@,
        ),
        Stmt::If { condition, else_branch, then_branch } => 1 + crate::expr::ast_size(condition)
            + stmt_size(*then_branch) + (match else_branch {
            Some(e) => stmt_size(*e),
            None => 0,
        }),
        Stmt::While { condition, statement } => 1 + crate::expr::ast_size(condition) + stmt_size(
            *statement,
        ),
        Stmt::Expression { expr } => 1 + crate::expr::ast_size(expr),
        Stmt::Var { name, initializer } => 1 + opt_expr_size(initializer),
        Stmt::Print { expr } => 1 + crate::expr::ast_size(expr),
        Stmt::Nil => 1,
    }
}

/// The size of an optional expression.
pub open spec fn opt_expr_size(e: Option<Expr>) -> nat {
    match e {
        Some(e) => crate::expr::ast_size(e),
        None => 0,
    }
}

/// The combined size of a list of statements.
pub open spec fn stmts_size(s: Seq<Stmt>) -> nat
    decreases s,
{
    if s.len() == 0 {
        0
    } else {
        stmts_size(s.drop_last()) + stmt_size(s.last())
    }
}

/// Each element of a list counts toward the list's combined size.
pub proof fn lemma_stmts_size_mem(s: Seq<Stmt>, i: int)
    requires
        0 <= i < s.len(),
    ensures
        stmt_size(s[i]) <= stmts_size(s),
    decreases s.len(),
{
    if i == s.len() - 1 {
    } else {
        assert(s.drop_last()[i] == s[i]);
        lemma_stmts_size_mem(s.drop_last(), i);
    }
}

impl Stmt {
    /// A structural copy of this statement tree.
    #[verifier::loop_isolation(false)]
    pub fn duplicate(&self) -> (r: Stmt)
        decreases stmt_size(*self), 0int,
    {
        match self {
            Stmt::FxFx { name, params, body } => Stmt::FxFx {
                name: name.duplicate(),
                params: crate::tokens::tokens_duplicate(params),
                body: stmts_duplicate(body),
            },
            Stmt::Return { keyword, value } => Stmt::Return {
                keyword: keyword.duplicate(),
                value: match value {
                    Some(e) => Some(e.duplicate()),
                    None => None,
                },
            },
            Stmt::Block { statements } => Stmt::Block { statements: stmts_duplicate(statements) },
            Stmt::Class { name, superclass, methods } => Stmt::Class {
                name: name.duplicate(),
                superclass: match superclass {
                    Some(e) => Some(e.duplicate()),
                    None => None,
                },
                methods: stmts_duplicate(methods),
            },
            Stmt::If { condition, else_branch, then_branch } => Stmt::If {
                condition: condition.duplicate(),
                else_branch: match else_branch {
                    Some(s) => Some(Box::new(s.duplicate())),
                    None => None,
                },
                then_branch: Box::new(then_branch.duplicate()),
            },
            Stmt::While { condition, statement } => Stmt::While {
                condition: condition.duplicate(),
                statement: Box::new(statement.duplicate()),
            },
            Stmt::Expression { expr } => Stmt::Expression { expr: expr.duplicate() },
            Stmt::Var { name, initializer } => Stmt::Var {
                name: name.duplicate(),
                initializer: match initializer {
                    Some(e) => Some(e.duplicate()),
                    None => None,
                },
            },
            Stmt::Print { expr } => Stmt::Print { expr: expr.duplicate() },
            Stmt::Nil => Stmt::Nil,
        }
    }
}

/// A structural copy of a statement list.
#[verifier::loop_isolation(false)]
pub fn stmts_duplicate(v: &Vec<Stmt>) -> (r: Vec<Stmt>)
    decreases stmts_size(v@), 1int,
{
    let mut r: Vec<Stmt> = Vec::new();
    let n = v.len();
    let mut i: usize = 0;
    while i < n
        invariant
            i <= n,
            n == v@.len(),
        decreases n - i,
    {
        proof {
            lemma_stmts_size_mem(v@, i as int);
        }
        r.push(v[i].duplicate());
        i = i + 1;
    }
    r
}

} // verus!
