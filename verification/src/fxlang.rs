//! One run of the whole pipeline: scan, parse, resolve, interpret. Diagnostics
//! of the static stages come back in the report; the surrounding program
//! decides where they go and what exit they force. A run whose static stages
//! reported anything never reaches the interpreter.
use crate::error::Error;
use crate::interpreter::{extends, Interpreter};
use crate::lexer::Lexer;
use crate::parser::{lemma_lex_from_wf, Parser};
use crate::resolver::Resolver;
use vstd::prelude::*;

verus! {

/// What one run reported: the diagnostics of each static stage, whether the
/// static stages rejected the program, and the runtime error if one stopped
/// execution.
pub struct RunReport {
    pub lex_diags: Vec<String>,
    pub parse_diags: Vec<String>,
    pub resolve_diags: Vec<String>,
    pub compile_failed: bool,
    pub runtime_error: Option<Error>,
}

/// The interpreter, with its state carried across runs, as a REPL needs.
pub struct FxLang {
    pub interpreter: Interpreter,
}

impl FxLang {
    pub fn new() -> (r: FxLang)
        ensures
            r.interpreter.wf(),
    {
        FxLang { interpreter: Interpreter::new() }
    }

    /// Runs one source text. The interpreter's state persists; its printed
    /// output is only appended to, and nothing runs when a static stage
    /// rejected the program.
    pub fn run(&mut self, src: String, fuel: u64) -> (report: RunReport)
        requires
            old(self).interpreter.wf(),
            src@.len() < 0x7FFF_FFF0,
        ensures
            final(self).interpreter.wf(),
            final(self).interpreter.env == old(self).interpreter.env,
            final(self).interpreter.globals == old(self).interpreter.globals,
            final(self).interpreter.arena.len() >= old(self).interpreter.arena.len(),
            extends(old(self).interpreter.classes@, final(self).interpreter.classes@),
            final(self).interpreter.instances@.len() >= old(self).interpreter.instances@.len(),
            extends(old(self).interpreter.output@, final(self).interpreter.output@),
            report.compile_failed ==> final(self).interpreter.output@ == old(
                self,
            ).interpreter.output@,
            crate::lexer::diags_v(report.lex_diags@) =~= crate::lexer::lex_from(
                src@,
                0,
                1,
            ).diags,
            !report.compile_failed ==> report.lex_diags@.len() == 0 && report.parse_diags@.len()
                == 0,
            crate::lexer::lex_from(src@, 0, 1).diags.len() > 0 ==> report.compile_failed,
    {
        let mut lexer = Lexer::new(src);
        let ghost chars = lexer.src_chars();
        let tokens = lexer.scan_tokens();
        proof {
            lemma_lex_from_wf(lexer.src_chars(), 0, 1);
            assert(crate::lexer::diags_v(Seq::<String>::empty()) =~= Seq::<Seq<char>>::empty());
            assert(crate::lexer::diags_v(lexer.diags@) =~= crate::lexer::lex_from(
                chars,
                0,
                1,
            ).diags);
            assert(crate::lexer::toks_v(Seq::<crate::tokens::Token>::empty()) =~= Seq::<
                crate::tokens::TokenV,
            >::empty());
            assert(crate::parser::wf_toksv(crate::lexer::toks_v(tokens@)));
        }
        let mut parser = Parser::new(tokens);
        let statements = match parser.parse() {
            Ok(res) => res,
            Err(e) => {
                return RunReport {
                    lex_diags: lexer.diags,
                    parse_diags: parser.diags,
                    resolve_diags: Vec::new(),
                    compile_failed: true,
                    runtime_error: None,
                };
            },
        };
        if lexer.diags.len() > 0 || parser.diags.len() > 0 {
            return RunReport {
                lex_diags: lexer.diags,
                parse_diags: parser.diags,
                resolve_diags: Vec::new(),
                compile_failed: true,
                runtime_error: None,
            };
        }
        let mut resolver = Resolver::new();
        resolver.resolve_stmts(&statements, &mut self.interpreter);
        if resolver.had_error {
            return RunReport {
                lex_diags: lexer.diags,
                parse_diags: parser.diags,
                resolve_diags: resolver.diags,
                compile_failed: true,
                runtime_error: None,
            };
        }
        let runtime_error = match self.interpreter.interpret(&statements, fuel) {
            Ok(()) => None,
            Err(e) => Some(e),
        };
        RunReport {
            lex_diags: lexer.diags,
            parse_diags: parser.diags,
            resolve_diags: resolver.diags,
            compile_failed: false,
            runtime_error,
        }
    }
}

} // verus!
