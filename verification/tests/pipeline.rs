use fxlang::error::Error;
use fxlang::fxlang::FxLang;

const FUEL: u64 = 1_000_000;

fn run_ok(src: &str) -> Vec<String> {
    let mut fx = FxLang::new();
    let report = fx.run(src.to_string(), FUEL);
    assert!(!report.compile_failed, "static stages rejected: {:?} {:?} {:?}", report.lex_diags, report.parse_diags, report.resolve_diags);
    assert!(report.runtime_error.is_none(), "runtime error: {:?}", report.runtime_error);
    fx.interpreter.output.clone()
}

#[test]
fn arithmetic_print() {
    assert_eq!(run_ok("print 1 + 2 * 3;"), vec!["7".to_string()]);
}

#[test]
fn closures_capture_by_reference() {
    let out = run_ok(
        "fn makeCounter() -> {\n  var i = 0;\n  fn count() -> { i = i + 1; return i; }\n  return count;\n}\nvar c = makeCounter();\nprint c(); print c(); print c();\n",
    );
    assert_eq!(out, vec!["1".to_string(), "2".to_string(), "3".to_string()]);
}

#[test]
fn resolver_rejects_self_init_read() {
    let mut fx = FxLang::new();
    let report = fx.run("var a = \"outer\";\n{ var a = a; }\n".to_string(), FUEL);
    assert!(report.compile_failed);
    assert_eq!(
        report.resolve_diags,
        vec!["[line 2] Error at 'a': Cannot read local var in its own initializer.".to_string()]
    );
    assert!(fx.interpreter.output.is_empty());
}

#[test]
fn inheritance_and_super() {
    let out = run_ok(
        "class A -> { greet() -> { print \"A\"; } }\nclass B < A -> { greet() -> { super.greet(); print \"B\"; } }\nB().greet();\n",
    );
    assert_eq!(out, vec!["A".to_string(), "B".to_string()]);
}

#[test]
fn initializer_returns_this() {
    let out = run_ok("class Box -> { init(v) -> { this.v = v; return; } }\nprint Box(42).v;\n");
    assert_eq!(out, vec!["42".to_string()]);
}

#[test]
fn runtime_arity_error() {
    let mut fx = FxLang::new();
    let report = fx.run("fn f(a,b) -> { return a+b; }\nf(1);\n".to_string(), FUEL);
    assert!(!report.compile_failed);
    match report.runtime_error {
        Some(Error::Runtime { token, message }) => {
            assert_eq!(message, "Expected 2 args but found 1.");
            assert_eq!(token.lexeme, ")");
            assert_eq!(token.line, 2);
        },
        other => panic!("expected a runtime error, got {:?}", other),
    }
}

#[test]
fn short_circuit_and_skips_the_call() {
    let out = run_ok(
        "fn loud() -> { print \"x\"; return true; }\nprint false and loud();\nprint true or loud();\n",
    );
    assert_eq!(out, vec!["false".to_string(), "true".to_string()]);
}

#[test]
fn logical_yields_operand_values() {
    let out = run_ok("print nil or \"yes\";\nprint nil and \"no\";\nprint 1 and 2;\n");
    assert_eq!(out, vec!["yes".to_string(), "NIL".to_string(), "2".to_string()]);
}

#[test]
fn method_resolution_order_nearest_wins() {
    let out = run_ok(
        "class A -> { m() -> { print \"A.m\"; } n() -> { print \"A.n\"; } }\nclass B < A -> { m() -> { print \"B.m\"; } }\nvar b = B();\nb.m(); b.n();\n",
    );
    assert_eq!(out, vec!["B.m".to_string(), "A.n".to_string()]);
}

#[test]
fn pure_expression_evaluates_the_same_twice() {
    let out = run_ok("print 1 + 2 * 3 - 4 / 8;\nprint 1 + 2 * 3 - 4 / 8;\n");
    assert_eq!(out.len(), 2);
    assert_eq!(out[0], out[1]);
    assert_eq!(out[0], "6.5");
}

#[test]
fn fields_and_instance_stringify() {
    let out = run_ok(
        "class P -> { }\nvar p = P();\np.x = 3;\nprint p.x;\nprint p;\nprint P;\n",
    );
    assert_eq!(out, vec!["3".to_string(), "P instance".to_string(), "P".to_string()]);
}

#[test]
fn string_concat_and_comparisons() {
    let out = run_ok(
        "print \"con\" + \"cat\";\nprint 1 < 2;\nprint 2 <= 1;\nprint 3 > 2;\nprint 2 >= 3;\nprint 1 == 1;\nprint 1 != 1;\nprint \"a\" == \"a\";\nprint nil == nil;\nprint -4;\nprint 7 / 2;\n",
    );
    assert_eq!(
        out,
        vec![
            "concat".to_string(),
            "true".to_string(),
            "false".to_string(),
            "true".to_string(),
            "false".to_string(),
            "true".to_string(),
            "false".to_string(),
            "true".to_string(),
            "true".to_string(),
            "-4".to_string(),
            "3.5".to_string(),
        ]
    );
}

#[test]
fn while_and_for_loops() {
    let out = run_ok(
        "var s = 0;\nfor (var i = 1; i <= 4; i = i + 1) { s = s + i; }\nprint s;\nvar n = 3;\nwhile (n > 0) { print n; n = n - 1; }\n",
    );
    assert_eq!(
        out,
        vec!["10".to_string(), "3".to_string(), "2".to_string(), "1".to_string()]
    );
}

#[test]
fn if_else_branches() {
    let out = run_ok("if (1 > 2) { print \"then\"; } else { print \"else\"; }\nif (true) print \"t\";\n");
    assert_eq!(out, vec!["else".to_string(), "t".to_string()]);
}

#[test]
fn globals_persist_across_runs() {
    let mut fx = FxLang::new();
    let r1 = fx.run("var a = 1;".to_string(), FUEL);
    assert!(!r1.compile_failed && r1.runtime_error.is_none());
    let r2 = fx.run("print a;".to_string(), FUEL);
    assert!(!r2.compile_failed && r2.runtime_error.is_none());
    assert_eq!(fx.interpreter.output, vec!["1".to_string()]);
}

#[test]
fn parse_error_reports_and_rejects() {
    let mut fx = FxLang::new();
    let report = fx.run("print ;".to_string(), FUEL);
    assert!(report.compile_failed);
    assert_eq!(report.parse_diags, vec!["[line 1] Error at ';': Expect expression.".to_string()]);
}

#[test]
fn lexical_error_rejects_the_program() {
    let mut fx = FxLang::new();
    let report = fx.run("print 1; @".to_string(), FUEL);
    assert!(report.compile_failed);
    assert_eq!(report.lex_diags, vec!["[line 1] Error: Unexpected character.".to_string()]);
    assert!(fx.interpreter.output.is_empty());
}

#[test]
fn undefined_variable_is_a_runtime_error() {
    let mut fx = FxLang::new();
    let report = fx.run("print missing;".to_string(), FUEL);
    match report.runtime_error {
        Some(Error::Runtime { message, .. }) => {
            assert_eq!(message, "Undefined variable 'missing'.");
        },
        other => panic!("expected a runtime error, got {:?}", other),
    }
}

#[test]
fn operand_type_errors() {
    let mut fx = FxLang::new();
    let report = fx.run("print 1 - \"a\";".to_string(), FUEL);
    match report.runtime_error {
        Some(Error::Runtime { message, .. }) => assert_eq!(message, "Operand must be a number"),
        other => panic!("expected a runtime error, got {:?}", other),
    }
    let mut fx2 = FxLang::new();
    let report2 = fx2.run("print 1 + \"a\";".to_string(), FUEL);
    match report2.runtime_error {
        Some(Error::Runtime { message, .. }) => {
            assert_eq!(message, "Operands must be numbers or strings")
        },
        other => panic!("expected a runtime error, got {:?}", other),
    }
}

#[test]
fn call_of_a_non_callable_is_rejected() {
    let mut fx = FxLang::new();
    let report = fx.run("var x = 3; x();".to_string(), FUEL);
    match report.runtime_error {
        Some(Error::Runtime { message, .. }) => {
            assert_eq!(message, "Can only call funcs and classes.")
        },
        other => panic!("expected a runtime error, got {:?}", other),
    }
}

#[test]
fn property_access_on_non_instance_is_rejected() {
    let mut fx = FxLang::new();
    let report = fx.run("var x = 3; print x.y;".to_string(), FUEL);
    match report.runtime_error {
        Some(Error::Runtime { message, .. }) => {
            assert_eq!(message, "Only instances can have props.")
        },
        other => panic!("expected a runtime error, got {:?}", other),
    }
}

#[test]
fn undefined_property_is_rejected() {
    let mut fx = FxLang::new();
    let report = fx.run("class C -> { }\nprint C().missing;".to_string(), FUEL);
    match report.runtime_error {
        Some(Error::Runtime { message, .. }) => assert_eq!(message, "Undefined prop 'missing'."),
        other => panic!("expected a runtime error, got {:?}", other),
    }
}

#[test]
fn superclass_must_be_a_class() {
    let mut fx = FxLang::new();
    let report = fx.run("var notClass = 1;\nclass C < notClass -> { }\n".to_string(), FUEL);
    match report.runtime_error {
        Some(Error::Runtime { message, .. }) => {
            assert_eq!(message, "Superclass must be a class.")
        },
        other => panic!("expected a runtime error, got {:?}", other),
    }
}

#[test]
fn resolver_static_errors() {
    let mut fx = FxLang::new();
    let report = fx.run("return 1;".to_string(), FUEL);
    assert!(report.compile_failed);
    assert_eq!(
        report.resolve_diags,
        vec!["[line 1] Error at 'return': Cannot return from top-level code.".to_string()]
    );

    let mut fx2 = FxLang::new();
    let r2 = fx2.run("print this;".to_string(), FUEL);
    assert!(r2.compile_failed);
    assert_eq!(
        r2.resolve_diags,
        vec!["[line 1] Error at 'this': Cannot use 'this' outside of class".to_string()]
    );

    let mut fx3 = FxLang::new();
    let r3 = fx3.run("class C < C -> { }".to_string(), FUEL);
    assert!(r3.compile_failed);
    assert_eq!(
        r3.resolve_diags,
        vec!["[line 1] Error at 'C': A class cannot inherit from itself.".to_string()]
    );

    let mut fx4 = FxLang::new();
    let r4 = fx4.run("{ var a = 1; var a = 2; }".to_string(), FUEL);
    assert!(r4.compile_failed);
    assert_eq!(
        r4.resolve_diags,
        vec!["[line 1] Error at 'a': Variable with this name already declared.".to_string()]
    );

    let mut fx5 = FxLang::new();
    let r5 = fx5.run("class C -> { init() -> { return 1; } }".to_string(), FUEL);
    assert!(r5.compile_failed);
    assert_eq!(
        r5.resolve_diags,
        vec!["[line 1] Error at 'return': Cannot return a value from an initializer.".to_string()]
    );

    let mut fx6 = FxLang::new();
    let r6 = fx6.run("class C -> { m() -> { print super.m; } }".to_string(), FUEL);
    assert!(r6.compile_failed);
    assert_eq!(
        r6.resolve_diags,
        vec!["[line 1] Error at 'super': Cannot use 'super' in the base class.".to_string()]
    );
}

#[test]
fn clock_native_yields_a_number() {
    let out = run_ok("print clock() >= 0;");
    assert_eq!(out, vec!["true".to_string()]);
}

#[test]
fn function_values_stringify() {
    let out = run_ok("fn f() -> { }\nprint f;\nprint clock;\nprint f();\n");
    assert_eq!(
        out,
        vec!["<fn f>".to_string(), "<native func>".to_string(), "NIL".to_string()]
    );
}

#[test]
fn assignment_yields_the_value_and_updates() {
    let out = run_ok("var a = 1;\nvar b = 0;\nprint b = a + 1;\nprint b;\n");
    assert_eq!(out, vec!["2".to_string(), "2".to_string()]);
}

#[test]
fn blocks_shadow_and_restore() {
    let out = run_ok(
        "var a = \"outer\";\n{ var a = \"inner\"; print a; }\nprint a;\n",
    );
    assert_eq!(out, vec!["inner".to_string(), "outer".to_string()]);
}

#[test]
fn closures_resolve_at_definition_site() {
    let out = run_ok(
        "var a = \"global\";\n{\n  fn show() -> { print a; }\n  show();\n  var a = \"block\";\n  show();\n}\n",
    );
    assert_eq!(out, vec!["global".to_string(), "global".to_string()]);
}

#[test]
fn return_signal_crosses_blocks_and_loops() {
    let out = run_ok(
        "fn f() -> {\n  var i = 0;\n  while (i < 10) {\n    i = i + 1;\n    if (i == 3) { return i; }\n  }\n  return 99;\n}\nprint f();\n",
    );
    assert_eq!(out, vec!["3".to_string()]);
}

#[test]
fn reinvoked_initializer_still_yields_the_instance() {
    let out = run_ok(
        "class Box -> { init(v) -> { this.v = v; } }\nvar b = Box(1);\nprint b.init(2);\nprint b.v;\n",
    );
    assert_eq!(out, vec!["Box instance".to_string(), "2".to_string()]);
}

#[test]
fn three_level_inheritance_chain() {
    let out = run_ok(
        "class A -> { who() -> { print \"A\"; } }\nclass B < A -> { }\nclass C < B -> { }\nC().who();\n",
    );
    assert_eq!(out, vec!["A".to_string()]);
}

#[test]
fn methods_close_over_this() {
    let out = run_ok(
        "class Counter -> {\n  init() -> { this.n = 0; }\n  bump() -> { this.n = this.n + 1; return this.n; }\n}\nvar c = Counter();\nprint c.bump();\nprint c.bump();\n",
    );
    assert_eq!(out, vec!["1".to_string(), "2".to_string()]);
}

#[test]
fn unresolved_assignment_writes_the_global() {
    let out = run_ok("var g = 1;\nfn set() -> { g = 2; }\nset();\nprint g;\n");
    assert_eq!(out, vec!["2".to_string()]);
}

#[test]
fn assignment_to_an_undefined_global_is_rejected() {
    let mut fx = FxLang::new();
    let report = fx.run("missing = 1;".to_string(), FUEL);
    match report.runtime_error {
        Some(Error::Runtime { message, .. }) => {
            assert_eq!(message, "Undefined variable 'missing'.");
        },
        other => panic!("expected a runtime error, got {:?}", other),
    }
}

#[test]
fn clock_yields_fractional_seconds() {
    let out = run_ok("var t = clock();\nprint t >= 0;\nprint t < 99999999999;\n");
    assert_eq!(out, vec!["true".to_string(), "true".to_string()]);
}
