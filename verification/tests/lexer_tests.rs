use zero_shell::lexer::{Lexer, LexerError, Span, Token, TokenKind};

fn kinds(tokens: &[Token]) -> Vec<TokenKind> {
    let mut out = Vec::new();
    for token in tokens {
        out.push(token.kind);
    }
    out
}

fn values(tokens: &[Token]) -> Vec<String> {
    let mut out = Vec::new();
    for token in tokens {
        out.push(token.value.clone());
    }
    out
}

#[test]
fn test_lex_basic() {
    let lexer = Lexer::new("echo hello world");
    let tokens = lexer.lex().unwrap();
    assert_eq!(tokens.len(), 4); // 3 words + Eof
    assert_eq!(tokens[0].kind, TokenKind::Word);
    assert_eq!(tokens[0].value, "echo");
    assert_eq!(tokens[1].kind, TokenKind::Word);
    assert_eq!(tokens[1].value, "hello");
    assert_eq!(tokens[2].kind, TokenKind::Word);
    assert_eq!(tokens[2].value, "world");
    assert_eq!(tokens[3].kind, TokenKind::Eof);
}

#[test]
fn test_lex_quoted() {
    let lexer = Lexer::new(r#"echo "hello world""#);
    let tokens = lexer.lex().unwrap();
    assert_eq!(tokens.len(), 3); // echo, "hello world", EOF
    assert_eq!(tokens[0].value, "echo");
    assert_eq!(tokens[1].value, "hello world"); // Single word with spaces
    assert_eq!(tokens[1].kind, TokenKind::Word);
}

#[test]
fn test_lex_escaped() {
    let lexer = Lexer::new(r#"echo "hello \"world\"""#);
    let tokens = lexer.lex().unwrap();
    assert_eq!(tokens[0].value, "echo");
    assert_eq!(tokens[1].value, "hello \"world\""); // Quotes preserved inside
    assert_eq!(tokens[1].kind, TokenKind::Word);
}

#[test]
fn test_lex_unmatched_quote() {
    let lexer = Lexer::new(r#"echo "unmatched"#);
    let err = lexer.lex().unwrap_err();
    assert!(matches!(err, LexerError::UnmatchedQuote(_)));
}

#[test]
fn test_lex_empty_input() {
    let lexer = Lexer::new("");
    let tokens = lexer.lex().unwrap();
    assert_eq!(tokens.len(), 1); // Just EOF
    assert_eq!(tokens[0].kind, TokenKind::Eof);
}

#[test]
fn test_lex_multiple_spaces() {
    let lexer = Lexer::new("echo    world");
    let tokens = lexer.lex().unwrap();
    assert_eq!(tokens.len(), 3); // echo, world, EOF
    assert_eq!(tokens[0].value, "echo");
    assert_eq!(tokens[1].value, "world");
}

#[test]
fn test_lex_single_quotes() {
    let lexer = Lexer::new("echo 'hello world'");
    let tokens = lexer.lex().unwrap();
    assert_eq!(tokens[0].value, "echo");
    assert_eq!(tokens[1].value, "hello world");
}

#[test]
fn test_lex_mixed_quotes() {
    let lexer = Lexer::new(r#"echo "double" 'single'"#);
    let tokens = lexer.lex().unwrap();
    assert_eq!(tokens[0].value, "echo");
    assert_eq!(tokens[1].value, "double");
    assert_eq!(tokens[2].value, "single");
}

#[test]
fn test_lex_with_pipes() {
    let lexer = Lexer::new("echo hello | cat");
    let tokens = lexer.lex().unwrap();
    assert_eq!(tokens.len(), 5); // echo, hello, |, cat, EOF
    assert_eq!(tokens[0].value, "echo");
    assert_eq!(tokens[1].value, "hello");
    assert_eq!(tokens[2].kind, TokenKind::Pipe);
    assert_eq!(tokens[3].value, "cat");
}

#[test]
fn test_lex_with_redirect() {
    let lexer = Lexer::new("echo hello > output.txt");
    let tokens = lexer.lex().unwrap();
    assert_eq!(tokens.len(), 5); // echo, hello, >, output.txt, EOF
    assert_eq!(tokens[2].kind, TokenKind::RedirectOut);
}

#[test]
fn test_lex_with_semicolon() {
    let lexer = Lexer::new("echo hello; ls -l");
    let tokens = lexer.lex().unwrap();
    assert_eq!(tokens.len(), 6); // echo, hello, ;, ls, -l, EOF
    assert_eq!(tokens[2].kind, TokenKind::Semicolon);
}

#[test]
fn test_lex_complex_command() {
    let lexer = Lexer::new(r#"echo "hello world" | grep "hello" > output.txt"#);
    let tokens = lexer.lex().unwrap();
    assert_eq!(tokens[0].value, "echo");
    assert_eq!(tokens[1].value, "hello world");
    assert_eq!(tokens[2].kind, TokenKind::Pipe);
    assert_eq!(tokens[3].value, "grep");
    assert_eq!(tokens[4].value, "hello");
    assert_eq!(tokens[5].kind, TokenKind::RedirectOut);
    assert_eq!(tokens[6].value, "output.txt");
}

#[test]
fn lex_words_then_eof() {
    let tokens = Lexer::new("echo a b").lex().unwrap();
    assert_eq!(
        kinds(&tokens),
        vec![TokenKind::Word, TokenKind::Word, TokenKind::Word, TokenKind::Eof]
    );
    assert_eq!(values(&tokens), vec!["echo", "a", "b", ""]);
}

#[test]
fn lex_spans_count_columns_from_one() {
    let tokens = Lexer::new("echo a b").lex().unwrap();
    assert_eq!(tokens[0].span, Span::new(1, 1, 1, 4));
    assert_eq!(tokens[1].span, Span::new(1, 6, 1, 6));
    assert_eq!(tokens[2].span, Span::new(1, 8, 1, 8));
    assert_eq!(tokens[3].span, Span::new(1, 9, 1, 9));
}

#[test]
fn lex_lone_ampersand_stays_in_word() {
    let tokens = Lexer::new("echo a&b").lex().unwrap();
    assert_eq!(tokens.len(), 3);
    assert_eq!(tokens[1].kind, TokenKind::Word);
    assert_eq!(tokens[1].value, "a&b");
}

#[test]
fn lex_doubled_operators() {
    let tokens = Lexer::new("a && b || c").lex().unwrap();
    assert_eq!(
        kinds(&tokens),
        vec![
            TokenKind::Word,
            TokenKind::And,
            TokenKind::Word,
            TokenKind::Or,
            TokenKind::Word,
            TokenKind::Eof
        ]
    );
    assert_eq!(tokens[1].value, "&&");
    assert_eq!(tokens[1].span, Span::new(1, 3, 1, 4));
    assert_eq!(tokens[3].value, "||");
    assert_eq!(tokens[3].span, Span::new(1, 8, 1, 9));
}

#[test]
fn lex_pipe_not_followed_by_pipe_is_pipe() {
    let tokens = Lexer::new("a|b| |c").lex().unwrap();
    assert_eq!(
        kinds(&tokens),
        vec![
            TokenKind::Word,
            TokenKind::Pipe,
            TokenKind::Word,
            TokenKind::Pipe,
            TokenKind::Pipe,
            TokenKind::Word,
            TokenKind::Eof
        ]
    );
}

#[test]
fn lex_double_redirect_is_two_tokens() {
    let tokens = Lexer::new("a >> f < g").lex().unwrap();
    assert_eq!(
        kinds(&tokens),
        vec![
            TokenKind::Word,
            TokenKind::RedirectOut,
            TokenKind::RedirectOut,
            TokenKind::Word,
            TokenKind::RedirectIn,
            TokenKind::Word,
            TokenKind::Eof
        ]
    );
    assert_eq!(tokens[1].value, ">");
    assert_eq!(tokens[4].value, "<");
}

#[test]
fn lex_operators_inside_quotes_are_text() {
    let tokens = Lexer::new("echo 'a | b; c && d'").lex().unwrap();
    assert_eq!(tokens.len(), 3);
    assert_eq!(tokens[1].value, "a | b; c && d");
}

#[test]
fn lex_empty_quotes_give_empty_word() {
    let tokens = Lexer::new("echo \"\"").lex().unwrap();
    assert_eq!(tokens.len(), 3);
    assert_eq!(tokens[1].kind, TokenKind::Word);
    assert_eq!(tokens[1].value, "");
}

#[test]
fn lex_escape_outside_quotes() {
    let tokens = Lexer::new("a\\ b \\; \\\\").lex().unwrap();
    assert_eq!(values(&tokens), vec!["a b", ";", "\\", ""]);
    assert_eq!(tokens[1].kind, TokenKind::Word);
}

#[test]
fn lex_escape_returns_into_the_quote() {
    let tokens = Lexer::new("'a\\'b c' d").lex().unwrap();
    assert_eq!(values(&tokens), vec!["a'b c", "d", ""]);
}

#[test]
fn lex_newline_ends_the_input() {
    let tokens = Lexer::new("echo a\necho b").lex().unwrap();
    assert_eq!(values(&tokens), vec!["echo", "a", ""]);
    let tokens = Lexer::new("echo a\r\n").lex().unwrap();
    assert_eq!(values(&tokens), vec!["echo", "a", ""]);
}

#[test]
fn lex_newline_inside_quotes_is_text() {
    let tokens = Lexer::new("echo 'a\nb' c").lex().unwrap();
    assert_eq!(values(&tokens), vec!["echo", "a\nb", "c", ""]);
    assert_eq!(tokens[2].span, Span::new(2, 4, 2, 4));
    assert_eq!(tokens[3].span, Span::new(2, 5, 2, 5));
}

#[test]
fn lex_tabs_separate_words() {
    let tokens = Lexer::new("a\tb").lex().unwrap();
    assert_eq!(values(&tokens), vec!["a", "b", ""]);
}

#[test]
fn lex_quote_splits_adjacent_word() {
    let tokens = Lexer::new("ab\"cd\"ef").lex().unwrap();
    assert_eq!(values(&tokens), vec!["ab", "cd", "ef", ""]);
}

#[test]
fn lex_unmatched_quote_span() {
    let err = Lexer::new("echo 'abc").lex().unwrap_err();
    assert_eq!(err, LexerError::UnmatchedQuote(Span::new(1, 7, 1, 10)));
    let err = Lexer::new("'").lex().unwrap_err();
    assert_eq!(err, LexerError::UnmatchedQuote(Span::new(1, 2, 1, 2)));
}

#[test]
fn lex_other_quote_inside_quotes_is_text() {
    let tokens = Lexer::new("\"it's\"").lex().unwrap();
    assert_eq!(values(&tokens), vec!["it's", ""]);
    assert!(Lexer::new("\"it's").lex().is_err());
}

#[test]
fn lex_trailing_backslash_is_accepted() {
    let tokens = Lexer::new("abc\\").lex().unwrap();
    assert_eq!(values(&tokens), vec!["abc", ""]);
    let tokens = Lexer::new("'abc\\").lex().unwrap();
    assert_eq!(values(&tokens), vec!["abc", ""]);
}

#[test]
fn lex_last_token_is_the_only_eof() {
    for input in ["", "a", "a | b", "x; y && z", "'q' \"r\"", "a\\;b", "&", "a & b"] {
        let tokens = Lexer::new(input).lex().unwrap();
        let n = tokens.len();
        assert!(n >= 1);
        assert_eq!(tokens[n - 1].kind, TokenKind::Eof);
        for token in &tokens[..n - 1] {
            assert_ne!(token.kind, TokenKind::Eof);
        }
    }
}

#[test]
fn token_predicates() {
    let span = Span::new(1, 1, 1, 1);
    let word = Token::new(TokenKind::Word, "w".to_string(), span);
    assert!(word.is_word());
    assert!(!word.is_operator());
    assert!(!word.is_redirect());
    let out = Token::new(TokenKind::RedirectOut, ">".to_string(), span);
    assert!(out.is_operator());
    assert!(out.is_redirect());
    let append = Token::new(TokenKind::RedirectAppend, ">>".to_string(), span);
    assert!(!append.is_operator());
    assert!(!append.is_redirect());
    let and = Token::new(TokenKind::And, "&&".to_string(), span);
    assert!(and.is_operator());
    assert!(!and.is_redirect());
    let eof = Token::new(TokenKind::Eof, String::new(), span);
    assert!(!eof.is_operator());
    assert!(!eof.is_word());
    assert_eq!(word.duplicate(), word);
}
