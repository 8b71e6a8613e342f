//! Expressions of the language. Each variable-reference site (`Variable`,
//! `Assign`, `This`, `Super`) carries an identifier unique within one parse,
//! on which the resolver keys its depth table.
use crate::numeric::str_of_bits;
use crate::tokens::Token;
use vstd::prelude::*;
use vstd::string::StringExecFns;

verus! {

#[derive(Debug)]
pub enum LiteralValue {
    Number(u64),
    Boolean(bool),
    Str(String),
    Nil,
}

#[derive(Debug)]
pub enum Expr {
    Assign { id: u64, name: Token, val: Box<Expr> },
    Binary { lhs: Box<Expr>, op: Token, rhs: Box<Expr> },
    Call { callee: Box<Expr>, paren: Token, arguments: Vec<Expr> },
    Get { object: Box<Expr>, name: Token },
    SetProp { object: Box<Expr>, name: Token, value: Box<Expr> },
    Super { id: u64, keyword: Token, method: Token },
    This { id: u64, keyword: Token },
    Grouping { expr: Box<Expr> },
    Literal { val: LiteralValue },
    Logical { lhs: Box<Expr>, op: Token, rhs: Box<Expr> },
    Unary { op: Token, rhs: Box<Expr> },
    Variable { id: u64, name: Token },
}

/// How a literal renders in the printed tree: numbers by their decimal
/// rendering, strings verbatim, `nil` in lower case.
pub open spec fn lit_text(val: LiteralValue) -> Seq<char> {
    match val {
        LiteralValue::Number(b) => str_of_bits(b),
        LiteralValue::Boolean(b) => if b {
            "true"@
        } else {
            "false"@
        },
        LiteralValue::Str(s) => s@,
        LiteralValue::Nil => "nil"@,
    }
}

/// The fully parenthesized rendering of an expression tree.
pub open spec fn ast_text(e: Expr) -> Seq<char>
    decreases e,
{
    match e {
        Expr::Assign { id, name, val } => "("@ + name.lexeme@ + " "@ + ast_text(*val) + ")"@,
        Expr::Binary { lhs, op, rhs } => "("@ + op.lexeme@ + " "@ + ast_text(*lhs) + " "@
            + ast_text(*rhs) + ")"@,
        Expr::Call { callee, paren, arguments } => "(call "@ + ast_text(*callee) + args_text(
            arguments@,
        ) + ")"@,
        Expr::Get { object, name } => "(. "@ + ast_text(*object) + " "@ + name.lexeme@ + ")"@,
        Expr::SetProp { object, name, value } => "(= "@ + ast_text(*object) + " "@ + name.lexeme@
            + " "@ + ast_text(*value) + ")"@,
        Expr::Super { id, keyword, method } => "(super "@ + method.lexeme@ + ")"@,
        Expr::This { id, keyword } => "this"@,
        Expr::Grouping { expr } => "(group "@ + ast_text(*expr) + ")"@,
        Expr::Literal { val } => lit_text(val),
        Expr::Logical { lhs, op, rhs } => "("@ + op.lexeme@ + " "@ + ast_text(*lhs) + " "@
            + ast_text(*rhs) + ")"@,
        Expr::Unary { op, rhs } => "("@ + op.lexeme@ + " "@ + ast_text(*rhs) + ")"@,
        Expr::Variable { id, name } => name.lexeme@,
    }
}

/// The renderings of call arguments, each preceded by a space.
pub open spec fn args_text(s: Seq<Expr>) -> Seq<char>
    decreases s,
{
    if s.len() == 0 {
        Seq::empty()
    } else {
        args_text(s.drop_last()) + " "@ + ast_text(s.last())
    }
}

/// The number of nodes in an expression tree: the measure that recursive
/// walks over expressions decrease.
pub open spec fn ast_size(e: Expr) -> nat
    decreases e,
{
    match e {
        Expr::Assign { id, name, val } => 1 + ast_size(*val),
        Expr::Binary { lhs, op, rhs } => 1 + ast_size(*lhs) + ast_size(*rhs),
        Expr::Call { callee, paren, arguments } => 1 + ast_size(*callee) + args_size(arguments@),
        Expr::Get { object, name } => 1 + ast_size(*object),
        Expr::SetProp { object, name, value } => 1 + ast_size(*object) + ast_size(*value),
        Expr::Super { id, keyword, method } => 1,
        Expr::This { id, keyword } => 1,
        Expr::Grouping { expr } => 1 + ast_size(*expr),
        Expr::Literal { val } => 1,
        Expr::Logical { lhs, op, rhs } => 1 + ast_size(*lhs) + ast_size(*rhs),
        Expr::Unary { op, rhs } => 1 + ast_size(*rhs),
        Expr::Variable { id, name } => 1,
    }
}

/// The combined size of a list of expressions.
pub open spec fn args_size(s: Seq<Expr>) -> nat
    decreases s,
{
    if s.len() == 0 {
        0
    } else {
        args_size(s.drop_last()) + ast_size(s.last())
    }
}

/// Each element of a list counts toward the list's combined size.
pub proof fn lemma_args_size_mem(s: Seq<Expr>, i: int)
    requires
        0 <= i < s.len(),
    ensures
        ast_size(s[i]) <= args_size(s),
    decreases s.len(),
{
    if i == s.len() - 1 {
    } else {
        assert(s.drop_last()[i] == s[i]);
        lemma_args_size_mem(s.drop_last(), i);
    }
}

/// Renders expression trees for inspection.
pub struct AstPrinter;

impl AstPrinter {
    pub fn print(&mut self, expr: Expr) -> (r: Result<String, crate::error::Error>)
        ensures
            r matches Ok(s) && s@ == ast_text(expr),
    {
        Ok(render_expr(&expr))
    }
}

/// Builds the rendering that `ast_text` describes.
#[verifier::loop_isolation(false)]
pub fn render_expr(e: &Expr) -> (r: String)
    ensures
        r@ == ast_text(*e),
    decreases ast_size(*e),
{
    match e {
        Expr::Assign { id, name, val } => {
            let mut r = String::from_str("(");
            r.append(name.lexeme.as_str());
            r.append(" ");
            let inner = render_expr(val);
            r.append(inner.as_str());
            r.append(")");
            r
        },
        Expr::Binary { lhs, op, rhs } => render_binary(&op.lexeme, render_expr(lhs), render_expr(rhs)),
        Expr::Call { callee, paren, arguments } => {
            let mut r = String::from_str("(call ");
            let head = render_expr(callee);
            r.append(head.as_str());
            let n = arguments.len();
            let mut i: usize = 0;
            while i < n
                invariant
                    i <= n,
                    n == arguments@.len(),
                    r@ == "(call "@ + ast_text(**callee) + args_text(arguments@.take(i as int)),
                decreases n - i,
            {
                proof {
                    assert(arguments@.take(i + 1).drop_last() =~= arguments@.take(i as int));
                    assert(arguments@.take(i + 1).last() == arguments@[i as int]);
                    lemma_args_size_mem(arguments@, i as int);
                }
                r.append(" ");
                let a = render_expr(&arguments[i]);
                r.append(a.as_str());
                i = i + 1;
            }
            proof {
                assert(arguments@.take(n as int) =~= arguments@);
            }
            r.append(")");
            r
        },
        Expr::Get { object, name } => {
            let mut r = String::from_str("(. ");
            let inner = render_expr(object);
            r.append(inner.as_str());
            r.append(" ");
            r.append(name.lexeme.as_str());
            r.append(")");
            r
        },
        Expr::SetProp { object, name, value } => {
            let mut r = String::from_str("(= ");
            let inner = render_expr(object);
            r.append(inner.as_str());
            r.append(" ");
            r.append(name.lexeme.as_str());
            r.append(" ");
            let v = render_expr(value);
            r.append(v.as_str());
            r.append(")");
            r
        },
        Expr::Super { id, keyword, method } => {
            let mut r = String::from_str("(super ");
            r.append(method.lexeme.as_str());
            r.append(")");
            r
        },
        Expr::This { id, keyword } => String::from_str("this"),
        Expr::Grouping { expr } => {
            let mut r = String::from_str("(group ");
            let inner = render_expr(expr);
            r.append(inner.as_str());
            r.append(")");
            r
        },
        Expr::Literal { val } => render_literal(val),
        Expr::Logical { lhs, op, rhs } => render_binary(&op.lexeme, render_expr(lhs), render_expr(rhs)),
        Expr::Unary { op, rhs } => {
            let mut r = String::from_str("(");
            r.append(op.lexeme.as_str());
            r.append(" ");
            let inner = render_expr(rhs);
            r.append(inner.as_str());
            r.append(")");
            r
        },
        Expr::Variable { id, name } => name.lexeme.clone(),
    }
}

impl LiteralValue {
    /// A copy of this literal with the same model.
    pub fn duplicate(&self) -> (r: LiteralValue)
        ensures
            lit_text(r) == lit_text(*self),
    {
        match self {
            LiteralValue::Number(b) => LiteralValue::Number(*b),
            LiteralValue::Boolean(b) => LiteralValue::Boolean(*b),
            LiteralValue::Str(s) => LiteralValue::Str(s.clone()),
            LiteralValue::Nil => LiteralValue::Nil,
        }
    }
}

impl Expr {
    /// A structural copy of this expression tree.
    #[verifier::loop_isolation(false)]
    pub fn duplicate(&self) -> (r: Expr)
        decreases ast_size(*self), 0int,
    {
        match self {
            Expr::Assign { id, name, val } => Expr::Assign {
                id: *id,
                name: name.duplicate(),
                val: Box::new(val.duplicate()),
            },
            Expr::Binary { lhs, op, rhs } => Expr::Binary {
                lhs: Box::new(lhs.duplicate()),
                op: op.duplicate(),
                rhs: Box::new(rhs.duplicate()),
            },
            Expr::Call { callee, paren, arguments } => {
                let mut args2: Vec<Expr> = Vec::new();
                let n = arguments.len();
                let mut i: usize = 0;
                while i < n
                    invariant
                        i <= n,
                        n == arguments@.len(),
                    decreases n - i,
                {
                    proof {
                        lemma_args_size_mem(arguments@, i as int);
                    }
                    args2.push(arguments[i].duplicate());
                    i = i + 1;
                }
                Expr::Call {
                    callee: Box::new(callee.duplicate()),
                    paren: paren.duplicate(),
                    arguments: args2,
                }
            },
            Expr::Get { object, name } => Expr::Get {
                object: Box::new(object.duplicate()),
                name: name.duplicate(),
            },
            Expr::SetProp { object, name, value } => Expr::SetProp {
                object: Box::new(object.duplicate()),
                name: name.duplicate(),
                value: Box::new(value.duplicate()),
            },
            Expr::Super { id, keyword, method } => Expr::Super {
                id: *id,
                keyword: keyword.duplicate(),
                method: method.duplicate(),
            },
            Expr::This { id, keyword } => Expr::This { id: *id, keyword: keyword.duplicate() },
            Expr::Grouping { expr } => Expr::Grouping { expr: Box::new(expr.duplicate()) },
            Expr::Literal { val } => Expr::Literal { val: val.duplicate() },
            Expr::Logical { lhs, op, rhs } => Expr::Logical {
                lhs: Box::new(lhs.duplicate()),
                op: op.duplicate(),
                rhs: Box::new(rhs.duplicate()),
            },
            Expr::Unary { op, rhs } => Expr::Unary {
                op: op.duplicate(),
                rhs: Box::new(rhs.duplicate()),
            },
            Expr::Variable { id, name } => Expr::Variable { id: *id, name: name.duplicate() },
        }
    }
}

/// Renders a literal as `lit_text` describes.
pub fn render_literal(val: &LiteralValue) -> (r: String)
    ensures
        r@ == lit_text(*val),
{
    match val {
        LiteralValue::Number(b) => crate::numeric::num_to_text(*b),
        LiteralValue::Boolean(b) => if *b {
            String::from_str("true")
        } else {
            String::from_str("false")
        },
        LiteralValue::Str(s) => s.clone(),
        LiteralValue::Nil => String::from_str("nil"),
    }
}

fn render_binary(op_lexeme: &String, lhs: String, rhs: String) -> (r: String)
    ensures
        r@ == "("@ + op_lexeme@ + " "@ + lhs@ + " "@ + rhs@ + ")"@,
{
    let mut r = String::from_str("(");
    r.append(op_lexeme.as_str());
    r.append(" ");
    r.append(lhs.as_str());
    r.append(" ");
    r.append(rhs.as_str());
    r.append(")");
    r
}

} // verus!
