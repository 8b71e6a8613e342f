//! The interpreter: a tree walk over statements and expressions. The mutable
//! world — the environment arena, the class and instance arenas, the printed
//! output — lives in one state value, and every evaluation step says how it
//! relates the state before to the state after.
use crate::env::Environment;
use crate::error::Error;
use crate::expr::{ast_size, Expr, LiteralValue};
use crate::fxclass::{find_method_v, wf_classes, FxClass, FxClassInstance};
use crate::fxfx::{arity_of, FunV, FxFx, NativeKind};
use crate::fxunit::{truthy, unit_equals, FxUnit, UnitV};
use crate::numeric::{
    add_bits, bits_of_u64, div_bits, ge_bits, gt_bits, le_bits, lt_bits, mul_bits, neg_bits,
    num_add, num_div, num_from_u64, num_ge, num_gt, num_le, num_lt, num_mul, num_neg,
    num_of_lexeme, num_parse, num_sub, num_to_text, str_of_bits, sub_bits,
};
use crate::stmt::{stmt_size, stmts_size, Stmt};
use crate::table::{id_get, id_map_of, id_put};
use crate::tokens::{string_of, Token, TokenType, TokenTypeV};
use std::io::Write;
use vstd::prelude::*;
use vstd::string::{StrSliceExecFns, StringExecFns};

verus! {

/// Relies on std::io::Stdin::read_line: one line from standard input, or
/// nothing at end of input or on failure. What comes back depends on the
/// outside world, so nothing more is promised.
#[verifier::external_body]
fn read_line_stdin() -> (r: Option<String>) {
    let mut buffer = String::new();
    match std::io::stdin().read_line(&mut buffer) {
        Ok(0) => None,
        Ok(_) => Some(buffer),
        Err(_) => None,
    }
}

/// Relies on std::time::SystemTime::now and duration_since: whole
/// milliseconds since the Unix epoch, or zero when the clock is before it.
/// The result depends on the clock, so nothing more is promised; the caller
/// divides by a thousand to form fractional seconds.
#[verifier::external_body]
fn clock_millis() -> (r: u64) {
    match std::time::SystemTime::now().duration_since(std::time::UNIX_EPOCH) {
        Ok(d) => d.as_millis() as u64,
        Err(_) => 0,
    }
}

/// Relies on writeln to standard output; failures are ignored, as the printed
/// log the interpreter keeps is the value of record.
#[verifier::external_body]
fn stdout_line(s: &str) {
    let _ = writeln!(std::io::stdout(), "{}", s);
}

/// A whitespace character for input trimming.
pub open spec fn is_ws_char(c: char) -> bool {
    c == ' ' || c == '\t' || c == '\r' || c == '\n'
}

/// The position after the run of whitespace that starts at `i`.
pub open spec fn ws_end(s: Seq<char>, i: int) -> int
    decreases s.len() - i,
{
    if 0 <= i < s.len() && is_ws_char(s[i]) {
        ws_end(s, i + 1)
    } else {
        i
    }
}

/// The position before the run of whitespace that ends at `j`.
pub open spec fn ws_start(s: Seq<char>, j: int) -> int
    decreases j,
{
    if 0 < j <= s.len() && is_ws_char(s[j - 1]) {
        ws_start(s, j - 1)
    } else {
        j
    }
}

/// A line with surrounding whitespace removed.
pub open spec fn trim_of(s: Seq<char>) -> Seq<char> {
    let a = ws_end(s, 0);
    let b = ws_start(s, s.len() as int);
    if a < b {
        s.subrange(a, b)
    } else {
        Seq::empty()
    }
}

proof fn lemma_ws_end_bounds(s: Seq<char>, i: int)
    requires
        0 <= i <= s.len(),
    ensures
        i <= ws_end(s, i) <= s.len(),
    decreases s.len() - i,
{
    if i < s.len() && is_ws_char(s[i]) {
        lemma_ws_end_bounds(s, i + 1);
    }
}

proof fn lemma_ws_start_bounds(s: Seq<char>, j: int)
    requires
        0 <= j <= s.len(),
    ensures
        0 <= ws_start(s, j) <= j,
    decreases j,
{
    if 0 < j && is_ws_char(s[j - 1]) {
        lemma_ws_start_bounds(s, j - 1);
    }
}

fn char_is_ws(c: char) -> (r: bool)
    ensures
        r == is_ws_char(c),
{
    c == ' ' || c == '\t' || c == '\r' || c == '\n'
}

/// Removes leading and trailing whitespace from a line.
#[verifier::loop_isolation(false)]
pub fn trim_line(s: &str) -> (r: String)
    ensures
        r@ == trim_of(s@),
{
    let n = s.unicode_len();
    let mut a: usize = 0;
    proof {
        lemma_ws_end_bounds(s@, 0);
    }
    while a < n && char_is_ws(s.get_char(a))
        invariant
            a <= n,
            ws_end(s@, a as int) == ws_end(s@, 0),
        decreases n - a,
    {
        a = a + 1;
    }
    let mut b: usize = n;
    proof {
        lemma_ws_start_bounds(s@, n as int);
    }
    while b > 0 && char_is_ws(s.get_char(b - 1))
        invariant
            b <= n,
            ws_start(s@, b as int) == ws_start(s@, n as int),
        decreases b,
    {
        b = b - 1;
    }
    if a < b {
        s.substring_char(a, b).to_owned()
    } else {
        String::new()
    }
}

/// Language truthiness: `nil` and `false` are false, all else is true.
pub fn truthy_exec(v: &FxUnit) -> (r: bool)
    ensures
        r == truthy(v@),
{
    match v {
        FxUnit::Nil => false,
        FxUnit::Boolean(b) => *b,
        _ => true,
    }
}

/// What a logical operator decides after its left operand: the left value
/// itself when it short-circuits — `or` on a truthy left, `and` on a falsy
/// left — and nothing otherwise, in which case the right operand decides.
pub fn finish_logical(op_is_or: bool, left: FxUnit) -> (r: Option<FxUnit>)
    ensures
        ((op_is_or && truthy(left@)) || (!op_is_or && !truthy(left@))) ==> (r matches Some(v) && v@
            == left@),
        !((op_is_or && truthy(left@)) || (!op_is_or && !truthy(left@))) ==> r is None,
{
    let t = truthy_exec(&left);
    if op_is_or {
        if t {
            Some(left)
        } else {
            None
        }
    } else {
        if !t {
            Some(left)
        } else {
            None
        }
    }
}

/// What a unary operator yields: `-` negates a number and rejects anything
/// else; `!` is the negation of truthiness.
pub open spec fn unary_value_v(op: TokenTypeV, v: UnitV) -> Option<UnitV> {
    match op {
        TokenTypeV::Minus => match v {
            UnitV::Number(n) => Some(UnitV::Number(neg_bits(n))),
            _ => None,
        },
        TokenTypeV::Bang => Some(UnitV::Boolean(!truthy(v))),
        _ => None,
    }
}

/// What a binary operator yields, or nothing when the operands are rejected:
/// `-`, `/`, `*` and the comparisons take numbers; `+` takes numbers or
/// strings; equality never rejects.
pub open spec fn binary_value_v(op: TokenTypeV, l: UnitV, r: UnitV) -> Option<UnitV> {
    match op {
        TokenTypeV::Minus => match (l, r) {
            (UnitV::Number(a), UnitV::Number(b)) => Some(UnitV::Number(sub_bits(a, b))),
            _ => None,
        },
        TokenTypeV::Slash => match (l, r) {
            (UnitV::Number(a), UnitV::Number(b)) => Some(UnitV::Number(div_bits(a, b))),
            _ => None,
        },
        TokenTypeV::Star => match (l, r) {
            (UnitV::Number(a), UnitV::Number(b)) => Some(UnitV::Number(mul_bits(a, b))),
            _ => None,
        },
        TokenTypeV::Plus => match (l, r) {
            (UnitV::Number(a), UnitV::Number(b)) => Some(UnitV::Number(add_bits(a, b))),
            (UnitV::Str(a), UnitV::Str(b)) => Some(UnitV::Str(a + b)),
            _ => None,
        },
        TokenTypeV::Greater => match (l, r) {
            (UnitV::Number(a), UnitV::Number(b)) => Some(UnitV::Boolean(gt_bits(a, b))),
            _ => None,
        },
        TokenTypeV::GreaterEqual => match (l, r) {
            (UnitV::Number(a), UnitV::Number(b)) => Some(UnitV::Boolean(ge_bits(a, b))),
            _ => None,
        },
        TokenTypeV::Less => match (l, r) {
            (UnitV::Number(a), UnitV::Number(b)) => Some(UnitV::Boolean(lt_bits(a, b))),
            _ => None,
        },
        TokenTypeV::LessEqual => match (l, r) {
            (UnitV::Number(a), UnitV::Number(b)) => Some(UnitV::Boolean(le_bits(a, b))),
            _ => None,
        },
        TokenTypeV::BangEqual => Some(UnitV::Boolean(!unit_equals(l, r))),
        TokenTypeV::EqualEqual => Some(UnitV::Boolean(unit_equals(l, r))),
        _ => None,
    }
}

/// The message a rejected binary operation reports.
pub open spec fn binary_err_msg(op: TokenTypeV) -> Seq<char> {
    if op is Plus {
        "Operands must be numbers or strings"@
    } else {
        "Operand must be a number"@
    }
}

/// Applies a unary operator to an evaluated operand.
pub fn unary_value(op: &Token, v: FxUnit) -> (res: Result<FxUnit, Error>)
    ensures
        match res {
            Ok(out) => unary_value_v(op@.token_type, v@) == Some(out@),
            Err(e) => {
                &&& unary_value_v(op@.token_type, v@) is None
                &&& e matches Error::Runtime { token, message } && token@ == op@ && message@
                    == "Operand must be a number"@
            },
        },
{
    match &op.token_type {
        TokenType::Minus => match v {
            FxUnit::Number(n) => Ok(FxUnit::Number(num_neg(n))),
            _ => Err(num_op_error(op)),
        },
        TokenType::Bang => Ok(FxUnit::Boolean(!truthy_exec(&v))),
        _ => Err(num_op_error(op)),
    }
}

/// Applies a binary operator to evaluated operands, left and right.
pub fn binary_value(op: &Token, l: FxUnit, r: FxUnit) -> (res: Result<FxUnit, Error>)
    ensures
        match res {
            Ok(out) => binary_value_v(op@.token_type, l@, r@) == Some(out@),
            Err(e) => {
                &&& binary_value_v(op@.token_type, l@, r@) is None
                &&& e matches Error::Runtime { token, message } && token@ == op@ && message@
                    == binary_err_msg(op@.token_type)
            },
        },
{
    match &op.token_type {
        TokenType::Minus => match (l, r) {
            (FxUnit::Number(a), FxUnit::Number(b)) => Ok(FxUnit::Number(num_sub(a, b))),
            _ => Err(num_op_error(op)),
        },
        TokenType::Slash => match (l, r) {
            (FxUnit::Number(a), FxUnit::Number(b)) => Ok(FxUnit::Number(num_div(a, b))),
            _ => Err(num_op_error(op)),
        },
        TokenType::Star => match (l, r) {
            (FxUnit::Number(a), FxUnit::Number(b)) => Ok(FxUnit::Number(num_mul(a, b))),
            _ => Err(num_op_error(op)),
        },
        TokenType::Plus => match (l, r) {
            (FxUnit::Number(a), FxUnit::Number(b)) => Ok(FxUnit::Number(num_add(a, b))),
            (FxUnit::Str(a), FxUnit::Str(b)) => Ok(FxUnit::Str(a.concat(b.as_str()))),
            _ => Err(
                Error::Runtime {
                    token: op.duplicate(),
                    message: string_of("Operands must be numbers or strings"),
                },
            ),
        },
        TokenType::Greater => match (l, r) {
            (FxUnit::Number(a), FxUnit::Number(b)) => Ok(FxUnit::Boolean(num_gt(a, b))),
            _ => Err(num_op_error(op)),
        },
        TokenType::GreaterEqual => match (l, r) {
            (FxUnit::Number(a), FxUnit::Number(b)) => Ok(FxUnit::Boolean(num_ge(a, b))),
            _ => Err(num_op_error(op)),
        },
        TokenType::Less => match (l, r) {
            (FxUnit::Number(a), FxUnit::Number(b)) => Ok(FxUnit::Boolean(num_lt(a, b))),
            _ => Err(num_op_error(op)),
        },
        TokenType::LessEqual => match (l, r) {
            (FxUnit::Number(a), FxUnit::Number(b)) => Ok(FxUnit::Boolean(num_le(a, b))),
            _ => Err(num_op_error(op)),
        },
        TokenType::BangEqual => Ok(FxUnit::Boolean(!l.equals(&r))),
        TokenType::EqualEqual => Ok(FxUnit::Boolean(l.equals(&r))),
        _ => Err(num_op_error(op)),
    }
}

/// The error a non-number operand raises, at the operator's token.
fn num_op_error(op: &Token) -> (e: Error)
    ensures
        e matches Error::Runtime { token, message } && token@ == op@ && message@
            == "Operand must be a number"@,
{
    Error::Runtime { token: op.duplicate(), message: string_of("Operand must be a number") }
}

/// How a value prints: `nil` in upper case, numbers by their decimal
/// rendering, callables by their names, classes by name, instances by their
/// class's name.
pub open spec fn stringify_v(v: UnitV, classes: Seq<FxClass>, instances: Seq<FxClassInstance>) -> Seq<char> {
    match v {
        UnitV::Boolean(b) => if b {
            "true"@
        } else {
            "false"@
        },
        UnitV::Callable(f) => match f {
            FunV::Native { .. } => "<native func>"@,
            FunV::User { name, .. } => "<fn "@ + name + ">"@,
        },
        UnitV::Nil => "NIL"@,
        UnitV::Number(n) => str_of_bits(n),
        UnitV::Class(c) => if 0 <= c < classes.len() {
            classes[c]@.name
        } else {
            Seq::empty()
        },
        UnitV::Instance(i) => (if 0 <= i < instances.len() && 0 <= instances[i]@.class
            < classes.len() {
            classes[instances[i]@.class]@.name
        } else {
            Seq::empty()
        }) + " instance"@,
        UnitV::Str(s) => s,
    }
}

/// An expression with no side effects and no calls: evaluating it neither
/// touches the state nor depends on it.
pub open spec fn is_pure(e: Expr) -> bool
    decreases e,
{
    match e {
        Expr::Literal { val } => true,
        Expr::Grouping { expr } => is_pure(*expr),
        Expr::Unary { op, rhs } => is_pure(*rhs),
        Expr::Binary { lhs, op, rhs } => is_pure(*lhs) && is_pure(*rhs),
        Expr::Logical { lhs, op, rhs } => is_pure(*lhs) && is_pure(*rhs),
        _ => false,
    }
}

/// The value of a pure expression — a function of the expression alone, so
/// evaluating such an expression twice yields the same value — or nothing
/// where evaluation is a runtime error.
pub open spec fn pure_eval(e: Expr) -> Option<UnitV>
    decreases e,
{
    match e {
        Expr::Literal { val } => match val {
            LiteralValue::Number(n) => Some(UnitV::Number(n)),
            LiteralValue::Boolean(b) => Some(UnitV::Boolean(b)),
            LiteralValue::Str(s) => Some(UnitV::Str(s@)),
            LiteralValue::Nil => Some(UnitV::Nil),
        },
        Expr::Grouping { expr } => pure_eval(*expr),
        Expr::Unary { op, rhs } => match pure_eval(*rhs) {
            Some(v) => unary_value_v(op@.token_type, v),
            None => None,
        },
        Expr::Binary { lhs, op, rhs } => match pure_eval(*lhs) {
            Some(l) => match pure_eval(*rhs) {
                Some(r) => binary_value_v(op@.token_type, l, r),
                None => None,
            },
            None => None,
        },
        Expr::Logical { lhs, op, rhs } => match pure_eval(*lhs) {
            Some(l) => {
                let op_is_or = op@.token_type is Or;
                if (op_is_or && truthy(l)) || (!op_is_or && !truthy(l)) {
                    Some(l)
                } else {
                    pure_eval(*rhs)
                }
            },
            None => None,
        },
        _ => None,
    }
}

/// What a resolved read yields: a reference the resolver recorded with depth
/// `d` reads the scope `d` steps out from the current one, which must hold the
/// name; an unrecorded reference reads the global scope's chain, and an
/// undefined variable is a runtime error.
pub open spec fn var_read_post(
    st: Interpreter,
    id: u64,
    name: crate::tokens::TokenV,
    r: Result<FxUnit, Error>,
) -> bool {
    if id_map_of(st.locals@).contains_key(id) {
        match r {
            Ok(v) => {
                let d = id_map_of(st.locals@)[id];
                let a = st.arena.ancestor_of(st.env as int, d);
                &&& a is Some
                &&& st.arena.map_at(a->0).contains_key(name.lexeme)
                &&& st.arena.map_at(a->0)[name.lexeme] == v@
            },
            Err(e) => e is Runtime,
        }
    } else {
        match r {
            Ok(v) => st.arena.chain_get(0, name.lexeme) == Some(v@),
            Err(e) => st.arena.chain_get(0, name.lexeme) is None && e is Runtime,
        }
    }
}

/// What a successful assignment leaves behind: a reference the resolver
/// recorded writes the scope exactly that depth out from the current one; an
/// unrecorded reference writes the global scope. Either way the target then
/// maps the name to the assigned value, which the expression yields.
pub open spec fn assign_post(
    pre: Interpreter,
    id: u64,
    name: crate::tokens::TokenV,
    post: Interpreter,
    x: FxUnit,
) -> bool {
    let lm = id_map_of(pre.locals@);
    if lm.contains_key(id) {
        let a = post.arena.ancestor_of(pre.env as int, lm[id]);
        &&& a is Some
        &&& post.arena.map_at(a->0).contains_key(name.lexeme)
        &&& post.arena.map_at(a->0)[name.lexeme] == x@
    } else {
        &&& post.arena.map_at(0).contains_key(name.lexeme)
        &&& post.arena.map_at(0)[name.lexeme] == x@
    }
}

/// The interpreter's whole mutable world.
pub struct Interpreter {
    pub globals: usize,
    pub env: usize,
    pub arena: Environment,
    pub classes: Vec<FxClass>,
    pub instances: Vec<FxClassInstance>,
    pub locals: Vec<(u64, usize)>,
    pub output: Vec<String>,
}

/// One sequence extends another without rewriting what was already there.
pub open spec fn extends<T>(pre: Seq<T>, post: Seq<T>) -> bool {
    post.len() >= pre.len() && forall|j: int| 0 <= j < pre.len() ==> post[j] == pre[j]
}

/// What every evaluation step maintains: a well-formed state, the same current
/// scope and side table, arenas that only grow — declared classes never change
/// and an instance never changes its class — and output that is only appended
/// to.
pub open spec fn isteps(pre: Interpreter, post: Interpreter) -> bool {
    &&& post.wf()
    &&& post.env == pre.env
    &&& post.globals == pre.globals
    &&& post.locals == pre.locals
    &&& post.arena.len() >= pre.arena.len()
    &&& forall|j: int|
        0 <= j < pre.arena.len() ==> (#[trigger] post.arena.nodes@[j]).enclosing
            == pre.arena.nodes@[j].enclosing
    &&& extends(pre.classes@, post.classes@)
    &&& post.instances@.len() >= pre.instances@.len()
    &&& forall|j: int|
        0 <= j < pre.instances@.len() ==> (#[trigger] post.instances@[j])@.class
            == pre.instances@[j]@.class
    &&& extends(pre.output@, post.output@)
}

impl Interpreter {
    pub open spec fn wf(&self) -> bool {
        &&& self.globals == 0
        &&& self.arena.wf()
        &&& (self.env as int) < self.arena.len()
        &&& wf_classes(self.classes@)
    }

    /// A fresh interpreter: one global scope holding the three natives.
    pub fn new() -> (r: Interpreter)
        ensures
            r.wf(),
            r.env == 0,
            r.arena.len() == 1,
            r.classes@.len() == 0,
            r.instances@.len() == 0,
            r.locals@.len() == 0,
            r.output@.len() == 0,
            r.arena.map_at(0) == Map::<Seq<char>, UnitV>::empty().insert(
                "clock"@,
                UnitV::Callable(FunV::Native { arity: 0, which: NativeKind::Clock }),
            ).insert(
                "readNum"@,
                UnitV::Callable(FunV::Native { arity: 0, which: NativeKind::ReadNum }),
            ).insert(
                "readString"@,
                UnitV::Callable(FunV::Native { arity: 0, which: NativeKind::ReadString }),
            ),
    {
        let mut arena = Environment::new();
        arena.define(
            0,
            string_of("clock"),
            FxUnit::Callable(FxFx::Native { arity: 0, which: NativeKind::Clock }),
        );
        arena.define(
            0,
            string_of("readNum"),
            FxUnit::Callable(FxFx::Native { arity: 0, which: NativeKind::ReadNum }),
        );
        arena.define(
            0,
            string_of("readString"),
            FxUnit::Callable(FxFx::Native { arity: 0, which: NativeKind::ReadString }),
        );
        Interpreter {
            globals: 0,
            env: 0,
            arena,
            classes: Vec::new(),
            instances: Vec::new(),
            locals: Vec::new(),
            output: Vec::new(),
        }
    }

    /// Records the resolver's depth for a variable-reference site.
    pub fn resolve(&mut self, id: u64, depth: usize)
        ensures
            *final(self) == (Interpreter { locals: final(self).locals, ..*old(self) }),
            id_map_of(final(self).locals@) == id_map_of(old(self).locals@).insert(
                id,
                depth as int,
            ),
    {
        id_put(&mut self.locals, id, depth);
    }

    fn is_truthy(&self, fxunit: &FxUnit) -> (r: bool)
        ensures
            r == truthy(fxunit@),
    {
        truthy_exec(fxunit)
    }

    fn is_equal(&self, l_unit: &FxUnit, r_unit: &FxUnit) -> (r: bool)
        ensures
            r == unit_equals(l_unit@, r_unit@),
    {
        l_unit.equals(r_unit)
    }

    /// Renders a value as `Print` shows it.
    pub fn stringify(&self, fxunit: FxUnit) -> (r: String)
        ensures
            r@ == stringify_v(fxunit@, self.classes@, self.instances@),
    {
        match fxunit {
            FxUnit::Boolean(b) => if b {
                string_of("true")
            } else {
                string_of("false")
            },
            FxUnit::Callable(f) => match f {
                FxFx::Native { arity, which } => string_of("<native func>"),
                FxFx::User { name, params, body, closure, is_init } => {
                    let mut s = string_of("<fn ");
                    s.append(name.lexeme.as_str());
                    s.append(">");
                    s
                },
            },
            FxUnit::Nil => string_of("NIL"),
            FxUnit::Number(n) => num_to_text(n),
            FxUnit::Class(c) => {
                if c < self.classes.len() {
                    self.classes[c].name.clone()
                } else {
                    String::new()
                }
            },
            FxUnit::Instance(i) => {
                let mut s = if i < self.instances.len() && self.instances[i].class
                    < self.classes.len() {
                    self.classes[self.instances[i].class].name.clone()
                } else {
                    String::new()
                };
                s.append(" instance");
                s
            },
            FxUnit::Str(s) => s,
        }
    }

    /// The resolved-depth rule for reads: a reference the resolver recorded is
    /// read at that depth from the current scope; any other is read from the
    /// global scope.
    fn look_up_var(&self, id: u64, name: &Token) -> (r: Result<FxUnit, Error>)
        requires
            self.wf(),
        ensures
            var_read_post(*self, id, name@, r),
    {
        match id_get(&self.locals, id) {
            Some(dist) => self.arena.get_at(self.env, dist, name.lexeme.as_str()),
            None => self.arena.get(self.globals, name),
        }
    }
}


impl Interpreter {
    /// Runs a program: its statements in order, stopping at the first error.
    /// A program that is one `print` of a pure expression appends exactly that
    /// value's rendering to the output log, or fails when evaluation rejects
    /// the operands.
    pub fn interpret(&mut self, statements: &Vec<Stmt>, fuel: u64) -> (r: Result<(), Error>)
        requires
            old(self).wf(),
        ensures
            isteps(*old(self), *final(self)),
            statements@.len() == 1 ==> (statements@[0] matches Stmt::Print { expr } ==> (is_pure(
                expr,
            ) ==> match pure_eval(expr) {
                Some(v) => r is Ok && final(self).output@.len() == old(self).output@.len() + 1
                    && final(self).output@.last()@ == stringify_v(
                    v,
                    old(self).classes@,
                    old(self).instances@,
                ),
                None => r is Err,
            })),
    {
        let n = statements.len();
        let mut i: usize = 0;
        while i < n
            invariant
                isteps(*old(self), *self),
                n == statements@.len(),
                i <= n,
                i == 0 ==> *self == *old(self),
                (statements@.len() == 1 && i == 1) ==> (statements@[0] matches Stmt::Print {
                    expr,
                } ==> (is_pure(expr) ==> (match pure_eval(expr) {
                    Some(v) => self.output@.len() == old(self).output@.len() + 1
                        && self.output@.last()@ == stringify_v(
                        v,
                        old(self).classes@,
                        old(self).instances@,
                    ),
                    None => false,
                }))),
            decreases n - i,
        {
            self.execute(&statements[i], fuel)?;
            i = i + 1;
        }
        Ok(())
    }

    /// Runs statements in a given scope, and puts the previous scope back on
    /// every exit, errors and return signals included. A block that is one
    /// `print` of a pure expression appends exactly that value's rendering to
    /// the output log.
    #[verifier::loop_isolation(false)]
    pub fn exec_block(&mut self, statements: &Vec<Stmt>, environment: usize, fuel: u64) -> (r:
        Result<(), Error>)
        requires
            old(self).wf(),
            environment < old(self).arena.len(),
        ensures
            isteps(*old(self), *final(self)),
            statements@.len() == 1 ==> (statements@[0] matches Stmt::Print { expr } ==> (is_pure(
                expr,
            ) ==> match pure_eval(expr) {
                Some(v) => r is Ok && final(self).output@.len() == old(self).output@.len() + 1
                    && final(self).output@.last()@ == stringify_v(
                    v,
                    old(self).classes@,
                    old(self).instances@,
                ),
                None => r is Err,
            })),
        decreases fuel, stmts_size(statements@), 1int,
    {
        let prev = self.env;
        self.env = environment;
        let n = statements.len();
        let mut i: usize = 0;
        while i < n
            invariant
                self.wf(),
                self.env == environment,
                i <= n,
                i == 0 ==> *self == (Interpreter { env: environment, ..*old(self) }),
                (statements@.len() == 1 && i == 1) ==> (statements@[0] matches Stmt::Print {
                    expr,
                } ==> (is_pure(expr) ==> (match pure_eval(expr) {
                    Some(v) => self.output@.len() == old(self).output@.len() + 1
                        && self.output@.last()@ == stringify_v(
                        v,
                        old(self).classes@,
                        old(self).instances@,
                    ),
                    None => false,
                }))),
                self.globals == old(self).globals,
                self.locals == old(self).locals,
                self.arena.len() >= old(self).arena.len(),
                extends(old(self).classes@, self.classes@),
                self.instances@.len() >= old(self).instances@.len(),
                forall|j: int|
                    0 <= j < old(self).instances@.len() ==> (#[trigger] self.instances@[j])@.class
                        == old(self).instances@[j]@.class,
                forall|j: int|
                    0 <= j < old(self).arena.len() ==> (#[trigger] self.arena.nodes@[j]).enclosing
                        == old(self).arena.nodes@[j].enclosing,
                extends(old(self).output@, self.output@),
            decreases n - i,
        {
            proof {
                crate::stmt::lemma_stmts_size_mem(statements@, i as int);
            }
            match self.execute(&statements[i], fuel) {
                Ok(()) => {},
                Err(e) => {
                    self.env = prev;
                    return Err(e);
                },
            }
            i = i + 1;
        }
        self.env = prev;
        Ok(())
    }

    /// Runs one statement. Where its effect is expressible between two states
    /// it is stated exactly: printing a pure expression appends exactly its
    /// value's rendering; a function declaration binds the name in the current
    /// scope to a user function capturing that scope; `return` always signals,
    /// with exactly its value; `var` binds the evaluated initializer, `nil`
    /// without one; `if` and `while` with an untruthy pure condition change
    /// nothing; a class declaration appends the class and binds its name.
    #[verifier::loop_isolation(false)]
    fn execute(&mut self, statement: &Stmt, fuel: u64) -> (r: Result<(), Error>)
        requires
            old(self).wf(),
        ensures
            isteps(*old(self), *final(self)),
            (statement matches Stmt::Print { expr } && is_pure(*expr)) ==> (match pure_eval(
                statement->Print_expr,
            ) {
                Some(v) => {
                    &&& r is Ok
                    &&& final(self).output@.len() == old(self).output@.len() + 1
                    &&& final(self).output@.last()@ == stringify_v(
                        v,
                        old(self).classes@,
                        old(self).instances@,
                    )
                    &&& *final(self) == (Interpreter { output: final(self).output, ..*old(self) })
                },
                None => r is Err,
            }),
            statement matches Stmt::FxFx { name, params, body } ==> {
                &&& r is Ok
                &&& final(self).arena.map_at(old(self).env as int).contains_key(name@.lexeme)
                &&& final(self).arena.map_at(old(self).env as int)[name@.lexeme] matches UnitV::Callable(f)
                    && f matches FunV::User { name: n2, params: p2, body: b2, closure: c2, is_init: i2 }
                    && n2 == name@.lexeme && p2 == params@.map_values(|t: Token| t.lexeme@) && c2
                    == old(self).env as int && i2 == false
                &&& final(self).arena.map_at(old(self).env as int) == old(self).arena.map_at(
                    old(self).env as int,
                ).insert(name@.lexeme, final(self).arena.map_at(old(self).env as int)[name@.lexeme])
                &&& old(self).arena.same_but(final(self).arena, old(self).env as int)
                &&& *final(self) == (Interpreter { arena: final(self).arena, ..*old(self) })
            },
            statement matches Stmt::Return { keyword, value } ==> r is Err && (value is None ==> (
            r matches Err(e) && e matches Error::Return { value: rv } && rv@ is Nil && *final(self)
                == *old(self))) && (match value {
                Some(v) => is_pure(*v) ==> (match pure_eval(*v) {
                    Some(pv) => r matches Err(e) && e matches Error::Return { value: rv } && rv@
                        == pv && *final(self) == *old(self),
                    None => !(r->Err_0 is Return),
                }),
                None => true,
            }),
            statement matches Stmt::Var { name, initializer } ==> (initializer is None ==> (r is Ok
                && final(self).arena.map_at(old(self).env as int) == old(self).arena.map_at(
                old(self).env as int,
            ).insert(name@.lexeme, UnitV::Nil) && old(self).arena.same_but(
                final(self).arena,
                old(self).env as int,
            ) && *final(self) == (Interpreter { arena: final(self).arena, ..*old(self) }))) && (
            match initializer {
                Some(init) => is_pure(*init) ==> (match pure_eval(*init) {
                    Some(v) => r is Ok && final(self).arena.map_at(old(self).env as int) == old(
                        self,
                    ).arena.map_at(old(self).env as int).insert(name@.lexeme, v) && old(
                        self,
                    ).arena.same_but(final(self).arena, old(self).env as int) && *final(self) == (
                    Interpreter { arena: final(self).arena, ..*old(self) }),
                    None => r is Err && *final(self) == *old(self),
                }),
                None => true,
            }),
            statement matches Stmt::Expression { expr } ==> (is_pure(*expr) ==> match pure_eval(
                *expr,
            ) {
                Some(v) => r is Ok && *final(self) == *old(self),
                None => r is Err && *final(self) == *old(self),
            }),
            statement matches Stmt::If { condition, else_branch, then_branch } ==> (is_pure(
                *condition,
            ) ==> match pure_eval(*condition) {
                Some(c) => ((!truthy(c) && else_branch is None) ==> (r is Ok && *final(self)
                    == *old(self))),
                None => r is Err && *final(self) == *old(self),
            }),
            statement matches Stmt::While { condition, statement: body } ==> (is_pure(*condition)
                ==> match pure_eval(*condition) {
                Some(c) => (!truthy(c) ==> (r is Ok && *final(self) == *old(self))),
                None => r is Err && *final(self) == *old(self),
            }),
            statement matches Stmt::Class { name, superclass, methods } ==> (r is Ok ==> {
                &&& final(self).classes@.len() > old(self).classes@.len()
                &&& final(self).classes@.last()@.name == name@.lexeme
                &&& final(self).arena.map_at(old(self).env as int).contains_key(name@.lexeme)
                &&& final(self).arena.map_at(old(self).env as int)[name@.lexeme] == UnitV::Class(
                    final(self).classes@.len() - 1,
                )
            }),
        decreases fuel, stmt_size(*statement), 0int,
    {
        match statement {
            Stmt::Expression { expr } => {
                self.evaluate(expr, fuel)?;
                Ok(())
            },
            Stmt::Print { expr } => {
                let val = self.evaluate(expr, fuel)?;
                let text = self.stringify(val);
                stdout_line(text.as_str());
                self.output.push(text);
                Ok(())
            },
            Stmt::Var { name, initializer } => {
                let value: FxUnit = match initializer {
                    Some(init) => self.evaluate(init, fuel)?,
                    None => FxUnit::Nil,
                };
                let env = self.env;
                self.arena.define(env, name.lexeme.clone(), value);
                Ok(())
            },
            Stmt::Block { statements } => {
                let env = self.env;
                let child = self.arena.from(env);
                self.exec_block(statements, child, fuel)
            },
            Stmt::If { condition, else_branch, then_branch } => {
                let cond = self.evaluate(condition, fuel)?;
                if self.is_truthy(&cond) {
                    self.execute(then_branch, fuel)?;
                } else {
                    match else_branch {
                        Some(other) => {
                            self.execute(other, fuel)?;
                        },
                        None => {},
                    }
                }
                Ok(())
            },
            Stmt::While { condition, statement } => {
                let mut cond = self.evaluate(condition, fuel)?;
                let mut remaining = fuel;
                while self.is_truthy(&cond)
                    invariant
                        isteps(*old(self), *self),
                        remaining <= fuel,
                        is_pure(*condition) ==> (match pure_eval(*condition) {
                            Some(pc) => cond@ == pc && (!truthy(pc) ==> *self == *old(self)),
                            None => false,
                        }),
                    decreases remaining,
                {
                    if remaining == 0 {
                        return Err(too_deep());
                    }
                    remaining = remaining - 1;
                    self.execute(statement, remaining)?;
                    cond = self.evaluate(condition, remaining)?;
                }
                Ok(())
            },
            Stmt::FxFx { name, params, body } => {
                let params2 = crate::tokens::tokens_duplicate(params);
                proof {
                    assert forall|j: int| #![trigger params2@[j]]
                        0 <= j < params@.len() implies params2@.map_values(
                        |t: Token| t.lexeme@,
                    )[j] == params@.map_values(|t: Token| t.lexeme@)[j] by {
                        assert(params2@[j]@ == params@[j]@);
                        assert(params2@[j].lexeme@ == params2@[j]@.lexeme);
                        assert(params@[j].lexeme@ == params@[j]@.lexeme);
                    }
                    assert(params2@.map_values(|t: Token| t.lexeme@) =~= params@.map_values(
                        |t: Token| t.lexeme@,
                    ));
                }
                let func = FxFx::User {
                    name: name.duplicate(),
                    params: std::rc::Rc::new(params2),
                    body: std::rc::Rc::new(crate::stmt::stmts_duplicate(body)),
                    closure: self.env,
                    is_init: false,
                };
                let env = self.env;
                self.arena.define(env, name.lexeme.clone(), FxUnit::Callable(func));
                Ok(())
            },
            Stmt::Return { keyword, value } => {
                let return_val = match value {
                    Some(v) => self.evaluate(v, fuel)?,
                    None => FxUnit::Nil,
                };
                Err(Error::Return { value: return_val })
            },
            Stmt::Class { name, superclass, methods } => {
                let s_class: Option<usize> = match superclass {
                    Some(expr) => {
                        let v = self.evaluate(expr, fuel)?;
                        match v {
                            FxUnit::Class(c) => {
                                if c < self.classes.len() {
                                    Some(c)
                                } else {
                                    return Err(superclass_error(expr, name));
                                }
                            },
                            _ => {
                                return Err(superclass_error(expr, name));
                            },
                        }
                    },
                    None => None,
                };
                let env0 = self.env;
                self.arena.define(env0, name.lexeme.clone(), FxUnit::Nil);
                if let Some(c) = s_class {
                    let e2 = self.arena.from(env0);
                    self.arena.define(e2, string_of("super"), FxUnit::Class(c));
                    self.env = e2;
                }
                let mut class_methods: Vec<(String, FxFx)> = Vec::new();
                let n = methods.len();
                let mut i: usize = 0;
                while i < n
                    invariant
                        self.wf(),
                        n == methods@.len(),
                        self.env < self.arena.len(),
                    decreases n - i,
                {
                    if let Stmt::FxFx { name: mname, params, body } = &methods[i] {
                        let is_init = crate::tokens::str_eq(mname.lexeme.as_str(), "init");
                        let function = FxFx::User {
                            name: mname.duplicate(),
                            params: std::rc::Rc::new(crate::tokens::tokens_duplicate(params)),
                            body: std::rc::Rc::new(crate::stmt::stmts_duplicate(body)),
                            closure: self.env,
                            is_init,
                        };
                        crate::table::table_put(&mut class_methods, mname.lexeme.clone(), function);
                    }
                    i = i + 1;
                }
                let fx_class = FxClass {
                    name: name.lexeme.clone(),
                    superclass: s_class,
                    methods: class_methods,
                };
                let idx = self.classes.len();
                proof {
                    let pre = self.classes@;
                    assert forall|k: int|
                        0 <= k < pre.push(fx_class).len() implies match (#[trigger] pre.push(
                        fx_class,
                    )[k])@.superclass {
                        Some(sc) => 0 <= sc < k,
                        None => true,
                    } by {
                        if k < pre.len() {
                            assert(pre.push(fx_class)[k] == pre[k]);
                        }
                    }
                }
                self.classes.push(fx_class);
                if s_class.is_some() {
                    self.env = env0;
                }
                let env_now = self.env;
                let ghost pre_assign = self.arena;
                self.arena.assign(env_now, name, FxUnit::Class(idx))?;
                proof {
                    assert(pre_assign.map_at(env0 as int).contains_key(name@.lexeme));
                    assert(pre_assign.chain_holder(env0 as int, name@.lexeme) == Some(
                        env0 as int,
                    ));
                    assert(self.arena.map_at(env0 as int)[name@.lexeme] == UnitV::Class(
                        idx as int,
                    ));
                    assert(self.classes@.last()@.name == name@.lexeme);
                }
                Ok(())
            },
            Stmt::Nil => Ok(()),
        }
    }

    /// Evaluates one expression to a value; no evaluation yields a return
    /// signal. A pure expression — no variable reads, no calls, no assignments
    /// — leaves the state as it was, and its value is a function of the
    /// expression alone: evaluating it twice in the same environment yields
    /// the same value. Variable and `this` reads follow the resolved-depth
    /// rule and touch nothing; a successful assignment writes the resolved
    /// scope — the global scope for unrecorded sites — and yields the value; a
    /// logical operator short-circuits to its left value.
    #[verifier::loop_isolation(false)]
    fn evaluate(&mut self, expression: &Expr, fuel: u64) -> (r: Result<FxUnit, Error>)
        requires
            old(self).wf(),
        ensures
            isteps(*old(self), *final(self)),
            r matches Err(e) ==> !(e is Return),
            is_pure(*expression) ==> *final(self) == *old(self) && (match pure_eval(*expression) {
                Some(v) => r matches Ok(x) && x@ == v,
                None => r is Err,
            }),
            expression matches Expr::Variable { id, name } ==> *final(self) == *old(self)
                && var_read_post(*old(self), *id, name@, r),
            expression matches Expr::This { id, keyword } ==> *final(self) == *old(self)
                && var_read_post(*old(self), *id, keyword@, r),
            (expression matches Expr::Assign { id, name, val } && (r matches Ok(x)
                ==> assign_post(*old(self), *id, name@, *final(self), x))) || !(
            expression matches Expr::Assign { id, name, val }),
            expression matches Expr::Logical { lhs, op, rhs } ==> (is_pure(**lhs) ==> match pure_eval(
                **lhs,
            ) {
                Some(l) => (((op@.token_type is Or && truthy(l)) || (!(op@.token_type is Or)
                    && !truthy(l))) ==> (r matches Ok(x) && x@ == l && *final(self) == *old(self))),
                None => r is Err,
            }),
            (expression matches Expr::SetProp { object, name, value } && (r matches Ok(x) ==> {
                &&& x@ is Instance
                &&& 0 <= x@->Instance_0 < final(self).instances@.len()
                &&& final(self).instances@[x@->Instance_0]@.fields.contains_key(name@.lexeme)
            })) || !(expression matches Expr::SetProp { object, name, value }),
        decreases fuel, ast_size(*expression), 0int,
    {
        match expression {
            Expr::Literal { val } => Ok(literal_unit(val)),
            Expr::Grouping { expr } => self.evaluate(expr, fuel),
            Expr::Unary { op, rhs } => {
                let right = self.evaluate(rhs, fuel)?;
                unary_value(op, right)
            },
            Expr::Binary { lhs, op, rhs } => {
                let l = self.evaluate(lhs, fuel)?;
                let r = self.evaluate(rhs, fuel)?;
                binary_value(op, l, r)
            },
            Expr::Logical { lhs, op, rhs } => {
                let left = self.evaluate(lhs, fuel)?;
                let op_is_or = matches!(op.token_type, TokenType::Or);
                self.logical_rest(op_is_or, left, rhs, fuel)
            },
            Expr::Variable { id, name } => self.look_up_var(*id, name),
            Expr::This { id, keyword } => self.look_up_var(*id, keyword),
            Expr::Assign { id, name, val } => {
                let value = self.evaluate(val, fuel)?;
                let env = self.env;
                let globals = self.globals;
                match id_get(&self.locals, *id) {
                    Some(dist) => {
                        let ghost pre = self.arena;
                        self.arena.assign_at(env, dist, name, value.duplicate())?;
                        proof {
                            let d = dist as int;
                            let a = pre.ancestor_of(env as int, d);
                            crate::env::lemma_ancestor_in_range(&pre, env as int, d);
                            crate::env::lemma_ancestor_stable(&pre, &self.arena, env as int, d);
                            assert(self.arena.ancestor_of(env as int, d) == a);
                            assert(self.arena.map_at(a->0)[name@.lexeme] == value@);
                            assert(assign_post(*old(self), *id, name@, *self, value));
                        }
                    },
                    None => {
                        let ghost pre = self.arena;
                        self.arena.assign(globals, name, value.duplicate())?;
                        proof {
                            let h = pre.chain_holder(globals as int, name@.lexeme);
                            crate::env::lemma_chain_holder_in_range(
                                &pre,
                                globals as int,
                                name@.lexeme,
                            );
                            assert(h->0 == 0);
                            assert(self.arena.map_at(0)[name@.lexeme] == value@);
                            assert(assign_post(*old(self), *id, name@, *self, value));
                        }
                    },
                }
                Ok(value)
            },
            Expr::Call { callee, paren, arguments } => {
                let callee_v = self.evaluate(callee, fuel)?;
                let mut args: Vec<FxUnit> = Vec::new();
                let n = arguments.len();
                let mut i: usize = 0;
                while i < n
                    invariant
                        isteps(*old(self), *self),
                        n == arguments@.len(),
                    decreases n - i,
                {
                    proof {
                        crate::expr::lemma_args_size_mem(arguments@, i as int);
                    }
                    let a = self.evaluate(&arguments[i], fuel)?;
                    args.push(a);
                    i = i + 1;
                }
                match callee_v {
                    FxUnit::Callable(func) => {
                        let args_size_n = args.len();
                        if args_size_n != func.arity() {
                            Err(expected_args_error(paren, func.arity(), args_size_n))
                        } else if fuel == 0 {
                            Err(too_deep())
                        } else {
                            func.call(self, &args, fuel - 1)
                        }
                    },
                    FxUnit::Class(class_idx) => {
                        if class_idx < self.classes.len() {
                            self.instantiate(class_idx, &args, paren, fuel)
                        } else {
                            Err(
                                Error::Runtime {
                                    token: paren.duplicate(),
                                    message: string_of("Can only call funcs and classes."),
                                },
                            )
                        }
                    },
                    _ => Err(
                        Error::Runtime {
                            token: paren.duplicate(),
                            message: string_of("Can only call funcs and classes."),
                        },
                    ),
                }
            },
            Expr::Get { object, name } => {
                let obj = self.evaluate(object, fuel)?;
                if let FxUnit::Instance(i) = &obj {
                    let i = *i;
                    if i < self.instances.len() && self.instances[i].class < self.classes.len() {
                        self.instances[i].get(name, &obj, &self.classes, &mut self.arena)
                    } else {
                        Err(
                            Error::Runtime {
                                token: name.duplicate(),
                                message: string_of("Only instances can have props."),
                            },
                        )
                    }
                } else {
                    Err(
                        Error::Runtime {
                            token: name.duplicate(),
                            message: string_of("Only instances can have props."),
                        },
                    )
                }
            },
            Expr::SetProp { object, name, value } => {
                let obj = self.evaluate(object, fuel)?;
                if let FxUnit::Instance(i) = &obj {
                    let i = *i;
                    if i < self.instances.len() {
                        let v = self.evaluate(value, fuel)?;
                        if i < self.instances.len() {
                            let inst = &mut self.instances[i];
                            inst.set(name, v);
                            Ok(FxUnit::Instance(i))
                        } else {
                            Err(
                                Error::Runtime {
                                    token: name.duplicate(),
                                    message: string_of("Only instances have fields."),
                                },
                            )
                        }
                    } else {
                        Err(
                            Error::Runtime {
                                token: name.duplicate(),
                                message: string_of("Only instances have fields."),
                            },
                        )
                    }
                } else {
                    Err(
                        Error::Runtime {
                            token: name.duplicate(),
                            message: string_of("Only instances have fields."),
                        },
                    )
                }
            },
            Expr::Super { id, keyword, method } => {
                let dist = match id_get(&self.locals, *id) {
                    Some(d) => d,
                    None => {
                        return Err(
                            Error::Runtime {
                                token: keyword.duplicate(),
                                message: string_of("Unresolved 'super'."),
                            },
                        );
                    },
                };
                if dist == 0 {
                    return Err(
                        Error::Runtime {
                            token: keyword.duplicate(),
                            message: string_of("Unresolved 'super'."),
                        },
                    );
                }
                let env = self.env;
                let superclass = self.arena.get_at(env, dist, "super")?;
                let object = self.arena.get_at(env, dist - 1, "this")?;
                if let FxUnit::Class(sc) = superclass {
                    if sc < self.classes.len() {
                        match FxClass::find_method(&self.classes, sc, method.lexeme.as_str()) {
                            Some(m) => {
                                let ok = if let FxFx::User { closure, .. } = &m {
                                    *closure < self.arena.nodes.len()
                                } else {
                                    false
                                };
                                if ok {
                                    Ok(FxUnit::Callable(m.bind(object, &mut self.arena)))
                                } else {
                                    Err(
                                        Error::Runtime {
                                            token: method.duplicate(),
                                            message: string_of("Invalid method closure."),
                                        },
                                    )
                                }
                            },
                            None => {
                                let mut message = string_of("Undefined prop:");
                                message.append(method.lexeme.as_str());
                                Err(Error::Runtime { token: method.duplicate(), message })
                            },
                        }
                    } else {
                        Err(
                            Error::Runtime {
                                token: keyword.duplicate(),
                                message: string_of("Unresolved 'super'."),
                            },
                        )
                    }
                } else {
                    Err(
                        Error::Runtime {
                            token: keyword.duplicate(),
                            message: string_of("Unresolved 'super'."),
                        },
                    )
                }
            },
        }
    }

    /// Completes a logical expression after its left operand. On a
    /// short-circuit — `or` with a truthy left, `and` with a falsy left — the
    /// state stays exactly as it was after the left operand and the left value
    /// is the result, whatever the right operand is; otherwise the right
    /// operand evaluates and decides.
    fn logical_rest(&mut self, op_is_or: bool, left: FxUnit, rhs: &Expr, fuel: u64) -> (r: Result<
        FxUnit,
        Error,
    >)
        requires
            old(self).wf(),
        ensures
            isteps(*old(self), *final(self)),
            r matches Err(e) ==> !(e is Return),
            ((op_is_or && truthy(left@)) || (!op_is_or && !truthy(left@))) ==> (r matches Ok(x)
                && x@ == left@ && *final(self) == *old(self)),
            is_pure(*rhs) ==> (!((op_is_or && truthy(left@)) || (!op_is_or && !truthy(left@)))
                ==> *final(self) == *old(self) && (match pure_eval(*rhs) {
                Some(v) => r matches Ok(x) && x@ == v,
                None => r is Err,
            })),
        decreases fuel, ast_size(*rhs) + 1, 0int,
    {
        match finish_logical(op_is_or, left) {
            Some(v) => Ok(v),
            None => self.evaluate(rhs, fuel),
        }
    }

    /// Calls a class: a fresh instance of it, on which the class's `init`
    /// method, where there is one, runs first, after an argument-count check.
    /// Whatever the initializer's body does, the call yields the instance
    /// created here, at the previous end of the instance arena.
    fn instantiate(&mut self, class_idx: usize, args: &Vec<FxUnit>, paren: &Token, fuel: u64) -> (r:
        Result<FxUnit, Error>)
        requires
            old(self).wf(),
            class_idx < old(self).classes@.len(),
        ensures
            isteps(*old(self), *final(self)),
            r matches Err(e) ==> !(e is Return),
            r matches Ok(v) ==> {
                &&& v@ == UnitV::Instance(old(self).instances@.len() as int)
                &&& final(self).instances@.len() > old(self).instances@.len()
                &&& final(self).instances@[old(self).instances@.len() as int]@.class == class_idx
            },
            find_method_v(old(self).classes@, class_idx as int, "init"@) is None ==> r is Ok
                && final(self).instances@[old(self).instances@.len() as int]@.fields == Map::<
                Seq<char>,
                UnitV,
            >::empty(),
            (find_method_v(old(self).classes@, class_idx as int, "init"@) matches Some(m)
                && args@.len() != arity_of(m)) ==> r is Err,
        decreases fuel, 0int, 0int,
    {
        let inst = FxClassInstance::new(class_idx);
        let idx = self.instances.len();
        self.instances.push(inst);
        match FxClass::find_method(&self.classes, class_idx, "init") {
            Some(init) => {
                let args_size_n = args.len();
                if args_size_n != init.arity() {
                    return Err(expected_args_error(paren, init.arity(), args_size_n));
                }
                let ok = if let FxFx::User { closure, .. } = &init {
                    *closure < self.arena.nodes.len()
                } else {
                    false
                };
                if !ok {
                    return Err(
                        Error::Runtime {
                            token: paren.duplicate(),
                            message: string_of("Invalid method closure."),
                        },
                    );
                }
                if fuel == 0 {
                    return Err(too_deep());
                }
                let bound = init.bind(FxUnit::Instance(idx), &mut self.arena);
                bound.call(self, args, fuel - 1)?;
            },
            None => {},
        }
        Ok(FxUnit::Instance(idx))
    }
}

impl FxFx {
    /// Invokes a callable. A native computes its value directly. A user
    /// function runs its body in a fresh scope under its closure, with the
    /// parameters bound to the arguments in order; a return signal becomes the
    /// call's value, a completed body yields `nil` — except that an
    /// initializer always yields the `this` its closure holds. No call lets a
    /// return signal escape.
    pub fn call(&self, interpreter: &mut Interpreter, args: &Vec<FxUnit>, fuel: u64) -> (r: Result<
        FxUnit,
        Error,
    >)
        requires
            old(interpreter).wf(),
        ensures
            isteps(*old(interpreter), *final(interpreter)),
            r matches Err(e) ==> !(e is Return),
            self@ matches FunV::Native { arity, which } ==> match which {
                NativeKind::Clock => r matches Ok(v) && (exists|ms: u64|
                    v@ == UnitV::Number(div_bits(bits_of_u64(ms), bits_of_u64(1000)))),
                NativeKind::ReadNum => {
                    &&& (r matches Ok(v) ==> exists|line: Seq<char>|
                        v@ == UnitV::Number(num_of_lexeme(trim_of(line))))
                    &&& (r matches Err(e) ==> e is Runtime)
                },
                NativeKind::ReadString => {
                    &&& (r matches Ok(v) ==> exists|line: Seq<char>| v@ == UnitV::Str(trim_of(line)))
                    &&& (r matches Err(e) ==> e is Runtime)
                },
            },
            self@ matches FunV::User { closure, .. } ==> (closure >= old(interpreter).arena.len()
                ==> (r matches Err(e) && e matches Error::Runtime { token, message } && message@
                == "Invalid function closure."@ && *final(interpreter) == *old(interpreter))),
            (self@ matches FunV::User { closure, is_init, .. } && is_init && (r matches Ok(v) ==> ({
                let post = *final(interpreter);
                post.arena.map_at(closure).contains_key("this"@) && post.arena.map_at(closure)[
                    "this"@
                ] == v@
            }))) || !(self@ matches FunV::User { closure, is_init, .. } && is_init),
        decreases fuel, (match self {
            FxFx::User { body, .. } => stmts_size(body@) + 1,
            FxFx::Native { .. } => 1,
        }), 2int,
    {
        match self {
            FxFx::Native { arity, which } => match which {
                NativeKind::Clock => Ok(
                    FxUnit::Number(num_div(num_from_u64(clock_millis()), num_from_u64(1000))),
                ),
                NativeKind::ReadNum => {
                    match read_line_stdin() {
                        Some(line) => {
                            let trimmed = trim_line(line.as_str());
                            match num_parse(trimmed.as_str()) {
                                Some(bits) => Ok(FxUnit::Number(bits)),
                                None => Err(input_error("Failed to parse number input.")),
                            }
                        },
                        None => Err(input_error("Failed to read input.")),
                    }
                },
                NativeKind::ReadString => {
                    match read_line_stdin() {
                        Some(line) => Ok(FxUnit::Str(trim_line(line.as_str()))),
                        None => Err(input_error("Failed to read input.")),
                    }
                },
            },
            FxFx::User { name, params, body, closure, is_init } => {
                if *closure >= interpreter.arena.nodes.len() {
                    return Err(input_error("Invalid function closure."));
                }
                let env2 = interpreter.arena.from(*closure);
                let n = if params.len() < args.len() {
                    params.len()
                } else {
                    args.len()
                };
                let mut i: usize = 0;
                while i < n
                    invariant
                        isteps(*old(interpreter), *interpreter),
                        env2 < interpreter.arena.len(),
                        n <= params@.len(),
                        n <= args@.len(),
                    decreases n - i,
                {
                    interpreter.arena.define(
                        env2,
                        params[i].lexeme.clone(),
                        args[i].duplicate(),
                    );
                    i = i + 1;
                }
                let res = interpreter.exec_block(crate::fxfx::rc_ref(body), env2, fuel);
                match res {
                    Err(Error::Return { value }) => {
                        if *is_init {
                            interpreter.arena.get_at(*closure, 0, "this")
                        } else {
                            Ok(value)
                        }
                    },
                    Err(other) => Err(other),
                    Ok(()) => {
                        if *is_init {
                            interpreter.arena.get_at(*closure, 0, "this")
                        } else {
                            Ok(FxUnit::Nil)
                        }
                    },
                }
            },
        }
    }
}

/// The error a call with the wrong number of arguments raises, at the closing
/// parenthesis: `Expected N args but found M.`
fn expected_args_error(paren: &Token, expected: usize, found: usize) -> (e: Error)
    ensures
        e matches Error::Runtime { token, message } && token@ == paren@ && message@ == "Expected "@
            + crate::error::dec_digits(expected as nat) + " args but found "@
            + crate::error::dec_digits(found as nat) + "."@,
{
    let mut message = string_of("Expected ");
    message.append(crate::error::dec_of_u64(expected as u64).as_str());
    message.append(" args but found ");
    message.append(crate::error::dec_of_u64(found as u64).as_str());
    message.append(".");
    Error::Runtime { token: paren.duplicate(), message }
}

/// The error raised when evaluation exceeds the step allowance.
fn too_deep() -> (e: Error)
    ensures
        e is Runtime,
{
    Error::Runtime {
        token: Token::new(TokenType::Eof, "", 0),
        message: string_of("Evaluation too deep."),
    }
}

/// A runtime error with no source position, for native input failures.
fn input_error(msg: &str) -> (e: Error)
    ensures
        e matches Error::Runtime { token, message } && message@ == msg@,
{
    Error::Runtime { token: Token::new(TokenType::Eof, "", 0), message: msg.to_owned() }
}

/// The error a superclass expression that is no class raises, at the
/// superclass's name where it is one.
fn superclass_error(expr: &Expr, class_name: &Token) -> (e: Error)
    ensures
        e matches Error::Runtime { token, message } && message@ == "Superclass must be a class."@,
{
    let token = if let Expr::Variable { id, name } = expr {
        name.duplicate()
    } else {
        class_name.duplicate()
    };
    Error::Runtime { token, message: string_of("Superclass must be a class.") }
}

/// The value a literal denotes.
pub fn literal_unit(val: &LiteralValue) -> (r: FxUnit)
    ensures
        r@ == (match *val {
            LiteralValue::Boolean(b) => UnitV::Boolean(b),
            LiteralValue::Nil => UnitV::Nil,
            LiteralValue::Number(n) => UnitV::Number(n),
            LiteralValue::Str(s) => UnitV::Str(s@),
        }),
{
    match val {
        LiteralValue::Boolean(b) => FxUnit::Boolean(*b),
        LiteralValue::Nil => FxUnit::Nil,
        LiteralValue::Number(n) => FxUnit::Number(*n),
        LiteralValue::Str(s) => FxUnit::Str(s.clone()),
    }
}

} // verus!
