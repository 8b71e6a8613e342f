//! The resolver: a static pass that walks the tree before execution, keeps a
//! stack of scopes, records for every variable-reference site how many scopes
//! out its binding lies — the innermost scope holding the name wins — and
//! rejects the static errors: reading a local in its own initializer, a
//! duplicate local, `return` outside a function, a value returned from an
//! initializer, `this` or `super` outside their classes, self-inheritance.
use crate::error::parser_diag;
use crate::expr::{ast_size, Expr};
use crate::interpreter::{extends, Interpreter};
use crate::stmt::{stmt_size, stmts_size, Stmt};
use crate::table::{id_map_of, map_of, table_get, table_has, table_put};
use crate::tokens::{str_eq, string_of, Token};
use vstd::prelude::*;
use vstd::string::StringExecFns;

verus! {

/// What kind of function body the walk is inside.
#[derive(Debug, Clone, Copy, PartialEq, Eq, Structural)]
pub enum FunctionType {
    NoFunction,
    Function,
    Method,
    Initializer,
}

/// What kind of class body the walk is inside.
#[derive(Debug, Clone, Copy, PartialEq, Eq, Structural)]
pub enum ClassType {
    NoClass,
    Class,
    SubClass,
}

pub struct Resolver {
    pub scopes: Vec<Vec<(String, bool)>>,
    pub current_func: FunctionType,
    pub current_class: ClassType,
    pub had_error: bool,
    pub diags: Vec<String>,
}

/// The depth the resolver records for a name: the innermost scope holding the
/// name wins, `d` scopes out from the innermost.
pub open spec fn hit_from(scopes: Seq<Vec<(String, bool)>>, name: Seq<char>, d: int) -> Option<int>
    decreases scopes.len() - d,
{
    if !(0 <= d < scopes.len()) {
        None
    } else if map_of(scopes[scopes.len() - 1 - d]@).contains_key(name) {
        Some(d)
    } else {
        hit_from(scopes, name, d + 1)
    }
}

/// What every resolution step maintains: the scope stack keeps its depth and
/// everything but its innermost scope; the walk context is restored; errors
/// only accumulate.
pub open spec fn rsteps(pre: Resolver, post: Resolver) -> bool {
    &&& post.scopes@.len() == pre.scopes@.len()
    &&& forall|j: int| 0 <= j < pre.scopes@.len() - 1 ==> post.scopes@[j] == pre.scopes@[j]
    &&& post.current_func == pre.current_func
    &&& post.current_class == pre.current_class
    &&& (pre.had_error ==> post.had_error)
    &&& extends(pre.diags@, post.diags@)
}

/// The resolver touches nothing of the interpreter but its depth table.
pub open spec fn only_locals(pre: Interpreter, post: Interpreter) -> bool {
    post == (Interpreter { locals: post.locals, ..pre })
}

impl Resolver {
    pub fn new() -> (r: Resolver)
        ensures
            r.scopes@.len() == 0,
            r.current_func == FunctionType::NoFunction,
            r.current_class == ClassType::NoClass,
            !r.had_error,
            r.diags@.len() == 0,
    {
        Resolver {
            scopes: Vec::new(),
            current_func: FunctionType::NoFunction,
            current_class: ClassType::NoClass,
            had_error: false,
            diags: Vec::new(),
        }
    }

    /// Records a static error at a token: the diagnostic, and the flag that
    /// keeps the interpreter from running.
    fn error(&mut self, token: &Token, msg: &str)
        ensures
            *final(self) == (Resolver {
                had_error: true,
                diags: final(self).diags,
                ..*old(self)
            }),
            final(self).diags@ =~= old(self).diags@.push(final(self).diags@.last()),
            final(self).diags@.len() == old(self).diags@.len() + 1,
            final(self).diags@.last()@ == parser_diag(token@, msg@),
    {
        let d = crate::error::parser_error(token, msg);
        self.diags.push(d);
        self.had_error = true;
    }

    fn begin_scope(&mut self)
        ensures
            *final(self) == (Resolver { scopes: final(self).scopes, ..*old(self) }),
            final(self).scopes@.len() == old(self).scopes@.len() + 1,
            forall|j: int|
                0 <= j < old(self).scopes@.len() ==> final(self).scopes@[j] == old(self).scopes@[j],
            map_of(final(self).scopes@.last()@) == Map::<Seq<char>, bool>::empty(),
    {
        self.scopes.push(Vec::new());
    }

    fn end_scope(&mut self)
        ensures
            *final(self) == (Resolver { scopes: final(self).scopes, ..*old(self) }),
            old(self).scopes@.len() > 0 ==> final(self).scopes@ =~= old(self).scopes@.drop_last(),
            old(self).scopes@.len() == 0 ==> final(self).scopes@ =~= old(self).scopes@,
    {
        if self.scopes.len() > 0 {
            self.scopes.pop();
        }
    }

    /// Declares a name in the innermost scope, not yet usable; declaring a
    /// name twice in one scope is an error.
    fn declare(&mut self, name: &Token)
        ensures
            final(self).scopes@.len() == old(self).scopes@.len(),
            forall|j: int|
                0 <= j < old(self).scopes@.len() - 1 ==> final(self).scopes@[j] == old(
                    self,
                ).scopes@[j],
            final(self).current_func == old(self).current_func,
            final(self).current_class == old(self).current_class,
            extends(old(self).diags@, final(self).diags@),
            old(self).scopes@.len() > 0 ==> map_of(final(self).scopes@.last()@) == map_of(
                old(self).scopes@.last()@,
            ).insert(name@.lexeme, false),
            old(self).scopes@.len() == 0 ==> final(self).scopes@ =~= old(self).scopes@,
            final(self).had_error == (old(self).had_error || (old(self).scopes@.len() > 0 && map_of(
                old(self).scopes@.last()@,
            ).contains_key(name@.lexeme))),
    {
        let n = self.scopes.len();
        if n > 0 {
            let already = table_has(&self.scopes[n - 1], name.lexeme.as_str());
            let scope = &mut self.scopes[n - 1];
            table_put(scope, name.lexeme.clone(), false);
            if already {
                self.error(name, "Variable with this name already declared.");
            }
        }
    }

    /// Marks a declared name usable in the innermost scope.
    fn define(&mut self, name: &Token)
        ensures
            *final(self) == (Resolver { scopes: final(self).scopes, ..*old(self) }),
            final(self).scopes@.len() == old(self).scopes@.len(),
            forall|j: int|
                0 <= j < old(self).scopes@.len() - 1 ==> final(self).scopes@[j] == old(
                    self,
                ).scopes@[j],
            old(self).scopes@.len() > 0 ==> map_of(final(self).scopes@.last()@) == map_of(
                old(self).scopes@.last()@,
            ).insert(name@.lexeme, true),
            old(self).scopes@.len() == 0 ==> final(self).scopes@ =~= old(self).scopes@,
    {
        let n = self.scopes.len();
        if n > 0 {
            let scope = &mut self.scopes[n - 1];
            table_put(scope, name.lexeme.clone(), true);
        }
    }

    /// Records the depth of the innermost scope holding the name, walking
    /// innermost-outward and stopping at the first hit; a name no scope holds
    /// stays global and gets no entry.
    #[verifier::loop_isolation(false)]
    fn resolve_local(&mut self, name: &Token, id: u64, interpreter: &mut Interpreter)
        ensures
            *final(self) == *old(self),
            only_locals(*old(interpreter), *final(interpreter)),
            match hit_from(old(self).scopes@, name@.lexeme, 0) {
                Some(d) => id_map_of(final(interpreter).locals@) == id_map_of(
                    old(interpreter).locals@,
                ).insert(id, d) && 0 <= d < old(self).scopes@.len(),
                None => final(interpreter).locals@ == old(interpreter).locals@,
            },
    {
        let n = self.scopes.len();
        let mut d: usize = 0;
        while d < n
            invariant
                d <= n,
                *interpreter == *old(interpreter),
                hit_from(self.scopes@, name@.lexeme, 0) == hit_from(
                    self.scopes@,
                    name@.lexeme,
                    d as int,
                ),
            decreases n - d,
        {
            if table_has(&self.scopes[n - 1 - d], name.lexeme.as_str()) {
                interpreter.resolve(id, d);
                return ;
            }
            d = d + 1;
        }
    }
}


impl Resolver {
    /// Resolves a whole program: a top-level `return` anywhere in it sets the
    /// error flag.
    pub fn resolve_stmts(&mut self, statements: &Vec<Stmt>, interpreter: &mut Interpreter)
        ensures
            rsteps(*old(self), *final(self)),
            only_locals(*old(interpreter), *final(interpreter)),
            (old(self).current_func == FunctionType::NoFunction && exists|k: int|
                0 <= k < statements@.len() && (#[trigger] statements@[k]) is Return)
                ==> final(self).had_error,
        decreases stmts_size(statements@), 1int,
    {
        let n = statements.len();
        let mut i: usize = 0;
        while i < n
            invariant
                n == statements@.len(),
                rsteps(*old(self), *self),
                only_locals(*old(interpreter), *interpreter),
                (old(self).current_func == FunctionType::NoFunction && exists|k: int|
                    0 <= k < i && (#[trigger] statements@[k]) is Return) ==> self.had_error,
            decreases n - i,
        {
            proof {
                crate::stmt::lemma_stmts_size_mem(statements@, i as int);
            }
            self.resolve_stmt(&statements[i], interpreter);
            i = i + 1;
        }
    }

    /// Resolves one statement. A `return` outside any function, a value
    /// returned from an initializer, and a class naming itself as superclass
    /// each set the error flag.
    #[verifier::loop_isolation(false)]
    fn resolve_stmt(&mut self, statement: &Stmt, interpreter: &mut Interpreter)
        ensures
            rsteps(*old(self), *final(self)),
            only_locals(*old(interpreter), *final(interpreter)),
            statement matches Stmt::Return { keyword, value } ==> {
                &&& (old(self).current_func == FunctionType::NoFunction ==> final(self).had_error)
                &&& ((value is Some && old(self).current_func == FunctionType::Initializer)
                    ==> final(self).had_error)
            },
            statement matches Stmt::Class { name, superclass, methods } ==> (
            superclass matches Some(Expr::Variable { id, name: sup }) ==> (sup@.lexeme
                == name@.lexeme ==> final(self).had_error)),
        decreases stmt_size(*statement), 0int,
    {
        match statement {
            Stmt::Block { statements } => {
                self.begin_scope();
                self.resolve_stmts(statements, interpreter);
                self.end_scope();
            },
            Stmt::FxFx { name, params, body } => {
                self.declare(name);
                self.define(name);
                self.resolve_func(params, body, FunctionType::Function, interpreter);
            },
            Stmt::Class { name, superclass, methods } => {
                let enclosing_class = self.current_class;
                self.current_class = ClassType::Class;
                self.declare(name);
                self.define(name);
                let mut pushed_super = false;
                match superclass {
                    Some(Expr::Variable { id, name: superclass_name }) => {
                        if str_eq(name.lexeme.as_str(), superclass_name.lexeme.as_str()) {
                            self.error(superclass_name, "A class cannot inherit from itself.");
                        }
                        self.current_class = ClassType::SubClass;
                        self.resolve_local(superclass_name, *id, interpreter);
                        self.begin_scope();
                        let n = self.scopes.len();
                        let scope = &mut self.scopes[n - 1];
                        table_put(scope, string_of("super"), true);
                        pushed_super = true;
                    },
                    _ => {},
                }
                self.begin_scope();
                let n = self.scopes.len();
                let scope = &mut self.scopes[n - 1];
                table_put(scope, string_of("this"), true);
                let ghost base = *self;
                let ghost interp_mid = *interpreter;
                let m = methods.len();
                let mut i: usize = 0;
                while i < m
                    invariant
                        m == methods@.len(),
                        rsteps(base, *self),
                        only_locals(interp_mid, *interpreter),
                    decreases m - i,
                {
                    proof {
                        crate::stmt::lemma_stmts_size_mem(methods@, i as int);
                    }
                    if let Stmt::FxFx { name: mname, params, body } = &methods[i] {
                        let declaration = if str_eq(mname.lexeme.as_str(), "init") {
                            FunctionType::Initializer
                        } else {
                            FunctionType::Method
                        };
                        self.resolve_func(params, body, declaration, interpreter);
                    }
                    i = i + 1;
                }
                if pushed_super {
                    self.end_scope();
                }
                self.end_scope();
                self.current_class = enclosing_class;
            },
            Stmt::Return { keyword, value } => {
                if matches!(self.current_func, FunctionType::NoFunction) {
                    self.error(keyword, "Cannot return from top-level code.");
                }
                match value {
                    Some(return_val) => {
                        if matches!(self.current_func, FunctionType::Initializer) {
                            self.error(keyword, "Cannot return a value from an initializer.");
                        }
                        self.resolve_expr(return_val, interpreter);
                    },
                    None => {},
                }
            },
            Stmt::If { condition, else_branch, then_branch } => {
                self.resolve_expr(condition, interpreter);
                self.resolve_stmt(then_branch, interpreter);
                match else_branch {
                    Some(other) => self.resolve_stmt(other, interpreter),
                    None => {},
                }
            },
            Stmt::While { condition, statement } => {
                self.resolve_expr(condition, interpreter);
                self.resolve_stmt(statement, interpreter);
            },
            Stmt::Expression { expr } => self.resolve_expr(expr, interpreter),
            Stmt::Var { name, initializer } => {
                self.declare(name);
                match initializer {
                    Some(init) => self.resolve_expr(init, interpreter),
                    None => {},
                }
                self.define(name);
            },
            Stmt::Print { expr } => self.resolve_expr(expr, interpreter),
            Stmt::Nil => {},
        }
    }

    /// Resolves one expression: scopes are left exactly as they were, each
    /// variable-reference site gets the innermost-wins depth `hit_from`
    /// computes or stays global, and the static misuses — reading a local in
    /// its own initializer, `this` or `super` outside their classes — set the
    /// error flag.
    #[verifier::loop_isolation(false)]
    fn resolve_expr(&mut self, expression: &Expr, interpreter: &mut Interpreter)
        ensures
            rsteps(*old(self), *final(self)),
            only_locals(*old(interpreter), *final(interpreter)),
            final(self).scopes@ =~= old(self).scopes@,
            expression matches Expr::Variable { id, name } ==> {
                &&& ((old(self).scopes@.len() > 0 && map_of(
                    old(self).scopes@.last()@,
                ).contains_key(name@.lexeme) && map_of(old(self).scopes@.last()@)[name@.lexeme]
                    == false) ==> final(self).had_error)
                &&& (match hit_from(old(self).scopes@, name@.lexeme, 0) {
                    Some(d) => id_map_of(final(interpreter).locals@).contains_key(*id) && id_map_of(
                        final(interpreter).locals@,
                    )[*id] == d,
                    None => final(interpreter).locals@ == old(interpreter).locals@,
                })
            },
            expression matches Expr::This { id, keyword } ==> {
                &&& (old(self).current_class == ClassType::NoClass ==> final(self).had_error)
                &&& (old(self).current_class != ClassType::NoClass ==> (match hit_from(
                    old(self).scopes@,
                    keyword@.lexeme,
                    0,
                ) {
                    Some(d) => id_map_of(final(interpreter).locals@).contains_key(*id) && id_map_of(
                        final(interpreter).locals@,
                    )[*id] == d,
                    None => final(interpreter).locals@ == old(interpreter).locals@,
                }))
            },
            expression matches Expr::Super { id, keyword, method } ==> {
                &&& (old(self).current_class == ClassType::NoClass ==> final(self).had_error)
                &&& (old(self).current_class == ClassType::Class ==> final(self).had_error)
                &&& (old(self).current_class == ClassType::SubClass ==> (match hit_from(
                    old(self).scopes@,
                    keyword@.lexeme,
                    0,
                ) {
                    Some(d) => id_map_of(final(interpreter).locals@).contains_key(*id) && id_map_of(
                        final(interpreter).locals@,
                    )[*id] == d,
                    None => final(interpreter).locals@ == old(interpreter).locals@,
                }))
            },
            expression matches Expr::Assign { id, name, val } ==> (match hit_from(
                old(self).scopes@,
                name@.lexeme,
                0,
            ) {
                Some(d) => id_map_of(final(interpreter).locals@).contains_key(*id) && id_map_of(
                    final(interpreter).locals@,
                )[*id] == d,
                None => true,
            }),
        decreases ast_size(*expression), 0int,
    {
        match expression {
            Expr::Assign { id, name, val } => {
                self.resolve_expr(val, interpreter);
                self.resolve_local(name, *id, interpreter);
            },
            Expr::Binary { lhs, op, rhs } => {
                self.resolve_expr(lhs, interpreter);
                self.resolve_expr(rhs, interpreter);
            },
            Expr::Call { callee, paren, arguments } => {
                self.resolve_expr(callee, interpreter);
                let n = arguments.len();
                let mut i: usize = 0;
                while i < n
                    invariant
                        n == arguments@.len(),
                        rsteps(*old(self), *self),
                        only_locals(*old(interpreter), *interpreter),
                        self.scopes@ =~= old(self).scopes@,
                    decreases n - i,
                {
                    proof {
                        crate::expr::lemma_args_size_mem(arguments@, i as int);
                    }
                    self.resolve_expr(&arguments[i], interpreter);
                    i = i + 1;
                }
            },
            Expr::Get { object, name } => self.resolve_expr(object, interpreter),
            Expr::SetProp { object, name, value } => {
                self.resolve_expr(value, interpreter);
                self.resolve_expr(object, interpreter);
            },
            Expr::Super { id, keyword, method } => {
                match self.current_class {
                    ClassType::NoClass => self.error(
                        keyword,
                        "Cannot use super outside of a class.",
                    ),
                    ClassType::Class => self.error(keyword, "Cannot use 'super' in the base class."),
                    ClassType::SubClass => self.resolve_local(keyword, *id, interpreter),
                }
            },
            Expr::This { id, keyword } => {
                if matches!(self.current_class, ClassType::NoClass) {
                    self.error(keyword, "Cannot use 'this' outside of class");
                } else {
                    self.resolve_local(keyword, *id, interpreter);
                }
            },
            Expr::Grouping { expr } => self.resolve_expr(expr, interpreter),
            Expr::Literal { val } => {},
            Expr::Logical { lhs, op, rhs } => {
                self.resolve_expr(lhs, interpreter);
                self.resolve_expr(rhs, interpreter);
            },
            Expr::Unary { op, rhs } => self.resolve_expr(rhs, interpreter),
            Expr::Variable { id, name } => {
                let n = self.scopes.len();
                if n > 0 {
                    match table_get(&self.scopes[n - 1], name.lexeme.as_str()) {
                        Some(flag) => {
                            if !*flag {
                                self.error(name, "Cannot read local var in its own initializer.");
                            }
                        },
                        None => {},
                    }
                }
                self.resolve_local(name, *id, interpreter);
            },
        }
    }

    /// Resolves a function body: its own scope, the parameters declared and
    /// defined in it, under the given function kind.
    #[verifier::loop_isolation(false)]
    fn resolve_func(
        &mut self,
        params: &Vec<Token>,
        body: &Vec<Stmt>,
        fx_type: FunctionType,
        interpreter: &mut Interpreter,
    )
        ensures
            rsteps(*old(self), *final(self)),
            only_locals(*old(interpreter), *final(interpreter)),
        decreases stmts_size(body@), 2int,
    {
        let enclosing_func = self.current_func;
        self.current_func = fx_type;
        self.begin_scope();
        let ghost base = *self;
        let ghost interp_mid = *interpreter;
        let n = params.len();
        let mut i: usize = 0;
        while i < n
            invariant
                n == params@.len(),
                rsteps(base, *self),
                only_locals(interp_mid, *interpreter),
            decreases n - i,
        {
            self.declare(&params[i]);
            self.define(&params[i]);
            i = i + 1;
        }
        self.resolve_stmts(body, interpreter);
        self.end_scope();
        self.current_func = enclosing_func;
    }
}

} // verus!
