use zero_shell::lexer::{Lexer, Span, Token, TokenKind};
use zero_shell::parser::{
    parse_simple, Command, Expected, ParseError, Parser, RedirectOp, SimpleCommand,
};

fn create_word_token(value: &str) -> Token {
    Token::new(TokenKind::Word, value.to_string(), Span::new(1, 1, 1, value.len()))
}

fn create_eof_token() -> Token {
    Token::new(TokenKind::Eof, "".to_string(), Span::new(1, 1, 1, 1))
}

fn parse_line(line: &str) -> Result<Command, ParseError> {
    let tokens = Lexer::new(line).lex().unwrap();
    Parser::new(tokens).parse()
}

fn simple(words: &[&str]) -> Command {
    let mut args = Vec::new();
    for word in words {
        args.push(word.to_string());
    }
    Command::simple(args)
}

#[test]
fn test_parse_simple_basic() {
    let tokens = vec![
        create_word_token("echo"),
        create_word_token("hello"),
        create_word_token("world"),
        create_eof_token(),
    ];

    let (command, consumed) = parse_simple(&tokens).unwrap();

    assert_eq!(consumed, 3); // Should consume 3 tokens (not including EOF)

    if let Command::Simple(simple_cmd) = command {
        assert_eq!(simple_cmd.args, vec!["echo", "hello", "world"]);
    } else {
        panic!("Expected Simple command");
    }
}

#[test]
fn test_parse_simple_single_command() {
    let tokens = vec![create_word_token("ls"), create_eof_token()];

    let (command, consumed) = parse_simple(&tokens).unwrap();

    assert_eq!(consumed, 1);

    if let Command::Simple(simple_cmd) = command {
        assert_eq!(simple_cmd.args, vec!["ls"]);
    } else {
        panic!("Expected Simple command");
    }
}

#[test]
fn parse_simple_stops_at_operator() {
    let tokens = Lexer::new("a b | c").lex().unwrap();
    let (command, consumed) = parse_simple(&tokens).unwrap();
    assert_eq!(consumed, 2);
    assert_eq!(command, simple(&["a", "b"]));
}

#[test]
fn parse_simple_without_word_is_empty_command() {
    assert_eq!(parse_simple(&[create_eof_token()]), Err(ParseError::EmptyCommand));
    assert_eq!(parse_simple(&[]), Err(ParseError::EmptyCommand));
    let tokens = Lexer::new("| a").lex().unwrap();
    assert_eq!(parse_simple(&tokens), Err(ParseError::EmptyCommand));
}

#[test]
fn parse_pipe_binds_tighter_than_logical() {
    assert_eq!(
        parse_line("a && b | c"),
        Ok(Command::and(simple(&["a"]), Command::pipe(simple(&["b"]), simple(&["c"]))))
    );
}

#[test]
fn parse_redirect_binds_tighter_than_pipe() {
    assert_eq!(
        parse_line("a | b > f"),
        Ok(Command::pipe(
            simple(&["a"]),
            Command::redirect(simple(&["b"]), RedirectOp::Output, "f".to_string())
        ))
    );
}

#[test]
fn parse_sequence_folds_into_one_node() {
    assert_eq!(
        parse_line("a; b; c"),
        Ok(Command::sequence(vec![simple(&["a"]), simple(&["b"]), simple(&["c"])]))
    );
}

#[test]
fn parse_single_command_is_not_wrapped() {
    assert_eq!(parse_line("a"), Ok(simple(&["a"])));
    assert_eq!(parse_line("a;"), Ok(simple(&["a"])));
}

#[test]
fn parse_trailing_semicolon_after_two() {
    assert_eq!(
        parse_line("a; b;"),
        Ok(Command::sequence(vec![simple(&["a"]), simple(&["b"])]))
    );
}

#[test]
fn parse_logical_folds_left() {
    assert_eq!(
        parse_line("a && b || c"),
        Ok(Command::or(Command::and(simple(&["a"]), simple(&["b"])), simple(&["c"])))
    );
    assert_eq!(
        parse_line("a || b && c"),
        Ok(Command::and(Command::or(simple(&["a"]), simple(&["b"])), simple(&["c"])))
    );
}

#[test]
fn parse_pipe_folds_left() {
    assert_eq!(
        parse_line("a | b | c"),
        Ok(Command::pipe(Command::pipe(simple(&["a"]), simple(&["b"])), simple(&["c"])))
    );
}

#[test]
fn parse_redirects_nest_last_outermost() {
    assert_eq!(
        parse_line("a < in > out"),
        Ok(Command::redirect(
            Command::redirect(simple(&["a"]), RedirectOp::Input, "in".to_string()),
            RedirectOp::Output,
            "out".to_string()
        ))
    );
}

#[test]
fn parse_append_token_gives_append() {
    let tokens = vec![
        create_word_token("a"),
        Token::new(TokenKind::RedirectAppend, ">>".to_string(), Span::new(1, 3, 1, 4)),
        create_word_token("f"),
        create_eof_token(),
    ];
    assert_eq!(
        Parser::new(tokens).parse(),
        Ok(Command::redirect(simple(&["a"]), RedirectOp::Append, "f".to_string()))
    );
}

#[test]
fn parse_words_are_kept_as_lexed() {
    assert_eq!(
        parse_line("echo \"hello world\" 'a b' c\\ d"),
        Ok(simple(&["echo", "hello world", "a b", "c d"]))
    );
}

#[test]
fn parse_empty_line_is_empty_command() {
    assert_eq!(parse_line(""), Err(ParseError::EmptyCommand));
    assert_eq!(Parser::new(Vec::new()).parse(), Err(ParseError::EmptyCommand));
    assert_eq!(parse_line("a |"), Err(ParseError::EmptyCommand));
    assert_eq!(parse_line("a &&"), Err(ParseError::EmptyCommand));
    assert_eq!(parse_line("; a"), Err(ParseError::EmptyCommand));
    assert_eq!(parse_line("a;; b"), Err(ParseError::EmptyCommand));
}

#[test]
fn parse_redirect_without_file_names_the_token() {
    let tokens = Lexer::new("a > | b").lex().unwrap();
    let pipe = tokens[2].duplicate();
    assert_eq!(
        Parser::new(tokens).parse(),
        Err(ParseError::UnexpectedToken(pipe, Expected::Filename))
    );
    let tokens = Lexer::new("a >").lex().unwrap();
    let eof = tokens[2].duplicate();
    assert_eq!(
        Parser::new(tokens).parse(),
        Err(ParseError::UnexpectedToken(eof, Expected::Filename))
    );
    let tokens = vec![
        create_word_token("a"),
        Token::new(TokenKind::RedirectOut, ">".to_string(), Span::new(1, 3, 1, 3)),
    ];
    let last = tokens[1].duplicate();
    assert_eq!(
        Parser::new(tokens).parse(),
        Err(ParseError::UnexpectedToken(last, Expected::Filename))
    );
}

#[test]
fn parse_leftover_token_is_unexpected() {
    let tokens = vec![
        create_word_token("a"),
        create_eof_token(),
        create_word_token("b"),
    ];
    assert_eq!(Parser::new(tokens).parse(), Ok(simple(&["a"])));
    let tokens = Lexer::new("a > f g").lex().unwrap();
    let leftover = tokens[3].duplicate();
    assert_eq!(
        Parser::new(tokens).parse(),
        Err(ParseError::UnexpectedToken(
            leftover,
            Expected::Operator("end of command".to_string())
        ))
    );
}

#[test]
fn redirect_op_from_token() {
    let span = Span::new(1, 1, 1, 1);
    assert_eq!(
        RedirectOp::from_token(&Token::new(TokenKind::RedirectOut, ">".to_string(), span)),
        Some(RedirectOp::Output)
    );
    assert_eq!(
        RedirectOp::from_token(&Token::new(TokenKind::RedirectIn, "<".to_string(), span)),
        Some(RedirectOp::Input)
    );
    assert_eq!(
        RedirectOp::from_token(&Token::new(TokenKind::RedirectAppend, ">>".to_string(), span)),
        Some(RedirectOp::Append)
    );
    assert_eq!(RedirectOp::from_token(&create_word_token("x")), None);
    assert_eq!(RedirectOp::from_token(&create_eof_token()), None);
}

#[test]
fn command_builders() {
    assert_eq!(
        simple(&["a", "b"]),
        Command::Simple(SimpleCommand { args: vec!["a".to_string(), "b".to_string()] })
    );
    assert!(matches!(Command::pipe(simple(&["a"]), simple(&["b"])), Command::Pipe(_)));
    assert!(matches!(Command::or(simple(&["a"]), simple(&["b"])), Command::Or(_)));
}

#[test]
fn parse_error_messages() {
    assert_eq!(ParseError::EmptyCommand.message(), "Empty command");
    assert_eq!(ParseError::UnexpectedEof.message(), "Unexpected end of input");
    assert_eq!(ParseError::UnmatchedPipe.message(), "Unmatched pipe operator '|'");
    assert_eq!(ParseError::InvalidRedirect.message(), "Invalid redirect syntax");
    let error = parse_line("a > | b").unwrap_err();
    assert_eq!(
        error.message(),
        "Unexpected token 'Token { kind: Pipe, value: \"|\", span: Span { start_line: 1, \
         start_col: 5, end_line: 1, end_col: 5 } }', expected filename"
    );
    let error = parse_line("a > f g").unwrap_err();
    assert_eq!(
        error.message(),
        "Unexpected token 'Token { kind: Word, value: \"g\", span: Span { start_line: 1, \
         start_col: 7, end_line: 1, end_col: 7 } }', expected operator 'end of command'"
    );
}

#[test]
fn expected_descriptions() {
    assert_eq!(Expected::Command.describe(), "command");
    assert_eq!(Expected::Argument.describe(), "argument");
    assert_eq!(Expected::Filename.describe(), "filename");
    assert_eq!(Expected::Operator("|".to_string()).describe(), "operator '|'");
}

#[test]
fn parser_can_go_on_behind_an_eof() {
    let tokens = vec![
        create_word_token("a"),
        create_eof_token(),
    ];
    let mut parser = Parser::new(tokens);
    assert_eq!(parser.parse(), Ok(simple(&["a"])));
    assert_eq!(parser.parse(), Err(ParseError::EmptyCommand));
}

fn check(command: &Command) {
    match command {
        Command::Simple(c) => assert!(!c.args.is_empty()),
        Command::Pipe(c) => {
            check(&c.left);
            check(&c.right);
        }
        Command::Redirect(c) => check(&c.command),
        Command::And(c) => {
            check(&c.left);
            check(&c.right);
        }
        Command::Or(c) => {
            check(&c.left);
            check(&c.right);
        }
        Command::Sequence(c) => {
            assert!(c.commands.len() >= 2);
            for member in &c.commands {
                check(member);
            }
        }
    }
}

#[test]
fn parsed_simple_commands_have_a_name() {
    for line in ["a", "a b | c > f && d; e || f < g; h", "a;", "x | y | z"] {
        check(&parse_line(line).unwrap());
    }
}
