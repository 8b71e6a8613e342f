use fxlang::error::{error, report};
use fxlang::numeric::{num_add, num_div, num_from_u64, num_lt, num_neg, num_parse, num_to_text};
use fxlang::expr::{AstPrinter, Expr, LiteralValue};
use fxlang::interpreter::trim_line;
use fxlang::lexer::Lexer;
use fxlang::tokens::{Token, TokenType};

#[test]
fn lexer_default_test() {
    let input = "var a = 5".to_string();
    let mut lexer = Lexer::new(input);
    let expected = vec![
        Token { token_type: TokenType::Var, lexeme: "var".to_string(), line: 1 },
        Token { token_type: TokenType::Identifier, lexeme: "a".to_string(), line: 1 },
        Token { token_type: TokenType::Equal, lexeme: "=".to_string(), line: 1 },
        Token {
            token_type: TokenType::Number { literal: (5.0f64).to_bits() },
            lexeme: "5".to_string(),
            line: 1,
        },
        Token { token_type: TokenType::Eof, lexeme: "".to_string(), line: 1 },
    ];
    let actual = lexer.scan_tokens();
    assert_eq!(expected.len(), actual.len());
    for i in 0..expected.len() {
        assert_eq!(expected[i].token_type, actual[i].token_type);
        assert_eq!(expected[i].lexeme, actual[i].lexeme);
        assert_eq!(expected[i].line, actual[i].line);
    }
}

#[test]
fn expr_default_test() {
    let expression = Expr::Binary {
        lhs: Box::new(Expr::Unary {
            op: Token::new(TokenType::Minus, "-", 1),
            rhs: Box::new(Expr::Literal { val: LiteralValue::Number((420f64).to_bits()) }),
        }),
        op: Token::new(TokenType::Star, "*", 1),
        rhs: Box::new(Expr::Grouping {
            expr: Box::new(Expr::Literal { val: LiteralValue::Number((421f64).to_bits()) }),
        }),
    };
    let mut printer = AstPrinter;
    assert_eq!(printer.print(expression).unwrap(), "(* (- 420) (group 421))");
}

#[test]
fn lexer_two_char_tokens() {
    let mut lexer = Lexer::new("-> != == <= >= - < >".to_string());
    let kinds: Vec<TokenType> = lexer.scan_tokens().into_iter().map(|t| t.token_type).collect();
    assert_eq!(
        kinds,
        vec![
            TokenType::Gives,
            TokenType::BangEqual,
            TokenType::EqualEqual,
            TokenType::LessEqual,
            TokenType::GreaterEqual,
            TokenType::Minus,
            TokenType::Less,
            TokenType::Greater,
            TokenType::Eof,
        ]
    );
}

#[test]
fn lexer_string_and_lines() {
    let mut lexer = Lexer::new("\"ab\ncd\"\nx".to_string());
    let tokens = lexer.scan_tokens();
    assert_eq!(tokens[0].token_type, TokenType::Str { literal: "ab\ncd".to_string() });
    assert_eq!(tokens[0].lexeme, "\"ab\ncd\"");
    assert_eq!(tokens[0].line, 2);
    assert_eq!(tokens[1].token_type, TokenType::Identifier);
    assert_eq!(tokens[1].line, 3);
    assert!(lexer.diags.is_empty());
}

#[test]
fn lexer_unterminated_string() {
    let mut lexer = Lexer::new("\"abc".to_string());
    let tokens = lexer.scan_tokens();
    assert_eq!(tokens.len(), 1);
    assert_eq!(tokens[0].token_type, TokenType::Eof);
    assert_eq!(lexer.diags, vec!["[line 1] Error: Unterminated string.".to_string()]);
}

#[test]
fn lexer_unexpected_character() {
    let mut lexer = Lexer::new("@".to_string());
    let _ = lexer.scan_tokens();
    assert_eq!(lexer.diags, vec!["[line 1] Error: Unexpected character.".to_string()]);
}

#[test]
fn lexer_comment_and_number() {
    let mut lexer = Lexer::new("// note\n12.25".to_string());
    let tokens = lexer.scan_tokens();
    assert_eq!(tokens[0].token_type, TokenType::Number { literal: (12.25f64).to_bits() });
    assert_eq!(tokens[0].lexeme, "12.25");
    assert_eq!(tokens[0].line, 2);
}

#[test]
fn diagnostic_format() {
    assert_eq!(error(7, "msg"), "[line 7] Error: msg");
    assert_eq!(report(12, " at end", "Expect expression."), "[line 12] Error at end: Expect expression.");
}

#[test]
fn trim_line_removes_surrounding_whitespace() {
    assert_eq!(trim_line("  42\n"), "42");
    assert_eq!(trim_line("\t hi there \r\n"), "hi there");
    assert_eq!(trim_line("   \n"), "");
}

#[test]
fn relexing_concatenated_lexemes_preserves_kinds() {
    let src = "var xy = 1.5 + (2 * 3) != \"str\"; // trailing comment\nclass C < D -> { m() -> { return this; } }";
    let mut lexer = Lexer::new(src.to_string());
    let first: Vec<Token> = lexer.scan_tokens();
    let joined = first
        .iter()
        .take(first.len() - 1)
        .map(|t| t.lexeme.clone())
        .collect::<Vec<String>>()
        .join(" ");
    let mut lexer2 = Lexer::new(joined);
    let second: Vec<Token> = lexer2.scan_tokens();
    assert_eq!(first.len(), second.len());
    for i in 0..first.len() {
        assert_eq!(first[i].token_type, second[i].token_type);
    }
}

#[test]
fn empty_source_scans_to_end_of_file_alone() {
    let mut lexer = Lexer::new(String::new());
    let tokens = lexer.scan_tokens();
    assert_eq!(tokens.len(), 1);
    assert_eq!(tokens[0].token_type, TokenType::Eof);
    assert_eq!(tokens[0].line, 1);
}

#[test]
fn empty_program_runs_to_nothing() {
    let mut fx = fxlang::fxlang::FxLang::new();
    let report = fx.run(String::new(), 1000);
    assert!(!report.compile_failed);
    assert!(report.runtime_error.is_none());
    assert!(fx.interpreter.output.is_empty());
}

#[test]
fn numeric_wrappers_compute_ieee_doubles() {
    let one = (1.0f64).to_bits();
    let two = (2.0f64).to_bits();
    assert_eq!(num_add(one, two), (3.0f64).to_bits());
    assert_eq!(num_div((7.0f64).to_bits(), two), (3.5f64).to_bits());
    assert_eq!(num_neg((4.0f64).to_bits()), (-4.0f64).to_bits());
    assert!(num_lt(one, two));
    assert!(!num_lt(two, one));
    assert_eq!(num_parse("2.5"), Some((2.5f64).to_bits()));
    assert_eq!(num_parse(""), None);
    assert_eq!(num_to_text((420.0f64).to_bits()), "420");
    assert_eq!(num_from_u64(7), (7.0f64).to_bits());
}
