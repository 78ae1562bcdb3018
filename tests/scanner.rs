use lox::scanner::{scan_all, Scanner};
use lox::token::{Token, TokenType};
use lox::{error, report, Diagnostic};

fn kinds(source: &str) -> Vec<TokenType> {
    let (tokens, _) = scan_all(source);
    tokens.into_iter().map(|t| t.token_type).collect()
}

#[test]
fn test_advance() {
    let test_value = "print \"Hello, world!\";";
    let mut result = String::new();
    let mut scanner = Scanner::new(test_value);
    while !scanner.is_at_end() {
        let char = scanner.advance();
        result.push(char);
    }
    assert_eq!(test_value, &result);
}

#[test]
fn test_scan_string() {
    let test_value = "\"Hello, world!\"";
    let mut scanner = Scanner::new(test_value);
    let tokens = scanner.scan_tokens();
    assert_eq!(2, tokens.len(), "there should be one string and one EOF token");

    let token = tokens.get(0);
    if let Some(t) = token {
        if let TokenType::String(value) = &t.token_type {
            assert_eq!(&test_value.replace('"', ""), value);
        } else {
            panic!("wrong token type")
        }
    }
}

#[test]
fn test_scan_number() {
    let test_value = 12.34;
    let test_value_str = &test_value.to_string();
    let mut scanner = Scanner::new(test_value_str);
    let tokens = scanner.scan_tokens();
    assert_eq!(2, tokens.len(), "there should be one number and one EOF token");

    let token = tokens.get(0);
    if let Some(t) = token {
        if let TokenType::Number(value) = &t.token_type {
            assert_eq!(test_value, value.parse::<f64>().unwrap());
        } else {
            panic!("wrong token type")
        }
    }
}

#[test]
fn test_scan_identifier() {
    let test_value = "class";
    let mut scanner = Scanner::new(test_value);
    let tokens = scanner.scan_tokens();
    assert_eq!(2, tokens.len(), "there should be one number and one EOF token");

    let token = tokens.get(0);
    if let Some(t) = token {
        assert_eq!(TokenType::Class, t.token_type);
    }
}

#[test]
fn empty_source_yields_only_end_marker() {
    let (tokens, diagnostics) = scan_all("");
    assert_eq!(tokens, vec![Token::new(TokenType::Eof, "", 1)]);
    assert!(diagnostics.is_empty());
}

#[test]
fn last_token_is_end_marker() {
    for source in ["var x = 1;", "\"open", "@#", "// only a comment", "a\nb\n"] {
        let (tokens, _) = scan_all(source);
        let last = tokens.last().unwrap();
        assert_eq!(last.token_type, TokenType::Eof);
        assert_eq!(last.lexeme, "");
        let ends = tokens.iter().filter(|t| t.token_type == TokenType::Eof).count();
        assert_eq!(ends, 1);
    }
}

#[test]
fn end_marker_carries_final_line() {
    let (tokens, _) = scan_all("a\nb\n");
    assert_eq!(tokens.last().unwrap().line, 3);
}

#[test]
fn punctuation_and_blanks_give_one_token_per_mark() {
    let source = "( ) {}\t,.\r\n-+ ;*";
    let (tokens, diagnostics) = scan_all(source);
    assert_eq!(tokens.len() - 1, 10);
    for t in &tokens[..tokens.len() - 1] {
        assert_eq!(t.lexeme.chars().count(), 1);
    }
    assert_eq!(
        kinds(source),
        vec![
            TokenType::LeftParen,
            TokenType::RightParen,
            TokenType::LeftBrace,
            TokenType::RightBrace,
            TokenType::Comma,
            TokenType::Dot,
            TokenType::Minus,
            TokenType::Plus,
            TokenType::Semicolon,
            TokenType::Star,
            TokenType::Eof,
        ]
    );
    assert!(diagnostics.is_empty());
}

#[test]
fn two_character_operators() {
    assert_eq!(kinds("!="), vec![TokenType::BangEqual, TokenType::Eof]);
    assert_eq!(kinds("=="), vec![TokenType::EqualEqual, TokenType::Eof]);
    assert_eq!(kinds("<="), vec![TokenType::LessEqual, TokenType::Eof]);
    assert_eq!(kinds(">="), vec![TokenType::GreaterEqual, TokenType::Eof]);
    let (tokens, _) = scan_all("<=");
    assert_eq!(tokens[0].lexeme, "<=");
}

#[test]
fn one_character_operators() {
    assert_eq!(kinds("!"), vec![TokenType::Bang, TokenType::Eof]);
    assert_eq!(kinds("="), vec![TokenType::Equal, TokenType::Eof]);
    assert_eq!(kinds("<"), vec![TokenType::Less, TokenType::Eof]);
    assert_eq!(kinds(">"), vec![TokenType::Greater, TokenType::Eof]);
    assert_eq!(kinds("/"), vec![TokenType::Slash, TokenType::Eof]);
    assert_eq!(kinds("!=="), vec![TokenType::BangEqual, TokenType::Equal, TokenType::Eof]);
}

#[test]
fn comment_is_skipped_and_counts_lines() {
    let (tokens, _) = scan_all("// comment\n+");
    assert_eq!(tokens.len(), 2);
    assert_eq!(tokens[0], Token::new(TokenType::Plus, "+", 2));
}

#[test]
fn comment_at_end_of_input() {
    assert_eq!(kinds("1 // trailing"), vec![TokenType::Number("1".to_string()), TokenType::Eof]);
}

#[test]
fn string_literal_strips_quotes() {
    let (tokens, diagnostics) = scan_all("\"Hello, world!\"");
    assert_eq!(tokens.len(), 2);
    assert_eq!(tokens[0].token_type, TokenType::String("Hello, world!".to_string()));
    assert_eq!(tokens[0].lexeme, "\"Hello, world!\"");
    assert_eq!(tokens[1].token_type, TokenType::Eof);
    assert!(diagnostics.is_empty());
}

#[test]
fn string_literal_keeps_backslashes() {
    let (tokens, _) = scan_all("\"a\\nb\"");
    assert_eq!(tokens[0].token_type, TokenType::String("a\\nb".to_string()));
}

#[test]
fn multi_line_string_is_stamped_with_closing_line() {
    let (tokens, _) = scan_all("\"a\nb\nc\" x");
    assert_eq!(tokens[0].token_type, TokenType::String("a\nb\nc".to_string()));
    assert_eq!(tokens[0].line, 3);
    assert_eq!(tokens[1], Token::new(TokenType::Identifier("x".to_string()), "x", 3));
}

#[test]
fn unterminated_string_is_reported_once() {
    let (tokens, diagnostics) = scan_all("\"abc");
    assert_eq!(tokens, vec![Token::new(TokenType::Eof, "", 1)]);
    assert_eq!(diagnostics, vec![error(1, "Unterminated string.")]);
}

#[test]
fn unterminated_string_reports_line_at_end() {
    let (_, diagnostics) = scan_all("\"a\nb");
    assert_eq!(diagnostics.len(), 1);
    assert_eq!(diagnostics[0].line, 2);
    assert_eq!(diagnostics[0].message, "Unterminated string.");
}

#[test]
fn unexpected_characters_are_reported_and_skipped() {
    let (tokens, diagnostics) = scan_all("@+\n#");
    assert_eq!(tokens.len(), 2);
    assert_eq!(tokens[0], Token::new(TokenType::Plus, "+", 1));
    assert_eq!(
        diagnostics,
        vec![error(1, "Unexpected character."), error(2, "Unexpected character.")]
    );
}

#[test]
fn number_with_fraction() {
    let (tokens, _) = scan_all("12.34");
    assert_eq!(tokens.len(), 2);
    assert_eq!(tokens[0].token_type, TokenType::Number("12.34".to_string()));
    assert_eq!(tokens[0].lexeme, "12.34");
}

#[test]
fn number_with_trailing_dot() {
    let (tokens, _) = scan_all("12.");
    assert_eq!(tokens.len(), 3);
    assert_eq!(tokens[0], Token::new(TokenType::Number("12".to_string()), "12", 1));
    assert_eq!(tokens[1], Token::new(TokenType::Dot, ".", 1));
}

#[test]
fn number_then_member_access() {
    assert_eq!(
        kinds("1.a"),
        vec![TokenType::Number("1".to_string()), TokenType::Dot, TokenType::Identifier("a".to_string()), TokenType::Eof]
    );
}

#[test]
fn keyword_and_identifier() {
    assert_eq!(kinds("class"), vec![TokenType::Class, TokenType::Eof]);
    assert_eq!(kinds("classify"), vec![TokenType::Identifier("classify".to_string()), TokenType::Eof]);
    assert_eq!(kinds("_x1"), vec![TokenType::Identifier("_x1".to_string()), TokenType::Eof]);
}

#[test]
fn every_reserved_word_is_a_keyword() {
    let words = "and class else false for fun if nil or print return super this true var while";
    assert_eq!(
        kinds(words),
        vec![
            TokenType::And,
            TokenType::Class,
            TokenType::Else,
            TokenType::False,
            TokenType::For,
            TokenType::Fun,
            TokenType::If,
            TokenType::Nil,
            TokenType::Or,
            TokenType::Print,
            TokenType::Return,
            TokenType::Super,
            TokenType::This,
            TokenType::True,
            TokenType::Var,
            TokenType::While,
            TokenType::Eof,
        ]
    );
    assert_eq!(kinds("And"), vec![TokenType::Identifier("And".to_string()), TokenType::Eof]);
}

#[test]
fn scanning_twice_gives_the_same_tokens() {
    let source = "var a = \"x\";\n// c\nif (a >= 1.5) print a; @";
    let mut first = Scanner::new(source);
    let mut second = Scanner::new(source);
    let a = first.scan_tokens().clone();
    let b = second.scan_tokens().clone();
    assert_eq!(a, b);
    assert_eq!(first.diagnostics(), second.diagnostics());
}

#[test]
fn a_small_program() {
    let (tokens, diagnostics) = scan_all("var x = 10;\nprint x;");
    let expected = vec![
        Token::new(TokenType::Var, "var", 1),
        Token::new(TokenType::Identifier("x".to_string()), "x", 1),
        Token::new(TokenType::Equal, "=", 1),
        Token::new(TokenType::Number("10".to_string()), "10", 1),
        Token::new(TokenType::Semicolon, ";", 1),
        Token::new(TokenType::Print, "print", 2),
        Token::new(TokenType::Identifier("x".to_string()), "x", 2),
        Token::new(TokenType::Semicolon, ";", 2),
        Token::new(TokenType::Eof, "", 2),
    ];
    assert_eq!(tokens, expected);
    assert!(diagnostics.is_empty());
}

#[test]
fn token_display_text() {
    assert_eq!(Token::new(TokenType::BangEqual, "!=", 1).display_text(), "!= !=");
    assert_eq!(Token::new(TokenType::Eof, "", 1).display_text(), "\\d ");
    assert_eq!(Token::new(TokenType::String("hi".to_string()), "\"hi\"", 1).display_text(), "hi \"hi\"");
    assert_eq!(TokenType::While.display_text(), "while");
    assert_eq!(TokenType::Identifier("abc".to_string()).display_text(), "abc");
}

#[test]
fn report_line_format() {
    assert_eq!(report(12, "", "Unexpected character."), "[line 12] Error: Unexpected character.");
    assert_eq!(report(0, " at end", "oops"), "[line 0] Error at end: oops");
    let d: Diagnostic = error(7, "Unterminated string.");
    assert_eq!(d.line, 7);
    assert_eq!(d.display_text(), "[line 7] Error: Unterminated string.");
}

#[test]
fn non_ascii_text_inside_strings_and_comments() {
    let (tokens, diagnostics) = scan_all("\"héllo\" // ünïcode\n+");
    assert_eq!(tokens[0].token_type, TokenType::String("héllo".to_string()));
    assert_eq!(tokens[1], Token::new(TokenType::Plus, "+", 2));
    assert!(diagnostics.is_empty());
}
