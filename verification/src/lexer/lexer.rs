use vstd::prelude::*;
use super::scan::{
    ends_with_single_eof, flushed, initial, lemma_lex_never_appends, lemma_lex_total, lex_result,
    no_append, operator_at,
    quote_left_open, operator_text, scan, with_operator, with_word, LexerError, LexerState, Scan,
};
use super::types::{lemma_token_views_push, token_views, Span, Token, TokenKind, TokenView};

verus! {

/// The scanner: the characters of the input and the position in them.
pub struct Lexer {
    chars: Vec<char>,
    pos: usize,
    line: usize,
    col: usize,
}

/// What a lexing run returns, the tokens taken by their values.
pub open spec fn outcome_view(res: Result<Vec<Token>, LexerError>) -> Result<
    Seq<TokenView>,
    LexerError,
> {
    match res {
        Ok(tokens) => Ok(token_views(tokens@)),
        Err(e) => Err(e),
    }
}

impl Lexer {
    /// The text that the lexer was made for.
    pub closed spec fn input(&self) -> Seq<char> {
        self.chars@
    }

    /// Whether the lexer stands before the first character.
    pub closed spec fn at_start(&self) -> bool {
        self.pos == 0 && self.line == 1 && self.col == 1 && self.chars.len() < usize::MAX
    }

    spec fn well_formed(&self) -> bool {
        &&& self.pos <= self.chars.len()
        &&& self.chars.len() < usize::MAX
        &&& 1 <= self.line
        &&& 1 <= self.col
        &&& self.line + self.col <= self.pos + 2
    }

    /// The scanning state that the lexer and its caller's variables stand for.
    spec fn snapshot(
        &self,
        tokens: Vec<Token>,
        word: String,
        state: LexerState,
        start_line: usize,
        start_col: usize,
    ) -> Scan {
        Scan {
            tokens: token_views(tokens@),
            word: word@,
            state,
            line: self.line as nat,
            col: self.col as nat,
            start_line: start_line as nat,
            start_col: start_col as nat,
        }
    }

    /// A lexer for `input`.
    pub fn new(input: &str) -> (lexer: Self)
        requires
            input@.len() < usize::MAX,
        ensures
            lexer.input() == input@,
            lexer.at_start(),
    {
        let mut chars: Vec<char> = Vec::new();
        for c in it: input.chars()
            invariant
                it.seq() == input@,
                chars@ == it.seq().take(it.index() as int),
        {
            chars.push(c);
            assert(it.seq().take(it.index() + 1) =~= it.seq().take(it.index() as int).push(c));
        }
        assert(chars@ =~= input@);
        Lexer { chars, pos: 0, line: 1, col: 1 }
    }

    /// Moves past the current character.
    fn advance(&mut self)
        requires
            old(self).well_formed(),
            old(self).pos < old(self).chars.len(),
        ensures
            final(self).well_formed(),
            final(self).chars == old(self).chars,
            final(self).pos == old(self).pos + 1,
            old(self).chars[old(self).pos as int] == '\n' ==> final(self).line == old(self).line
                + 1 && final(self).col == 1,
            old(self).chars[old(self).pos as int] != '\n' ==> final(self).line == old(self).line
                && final(self).col == old(self).col + 1,
    {
        let c = self.chars[self.pos];
        self.pos += 1;
        if c == '\n' {
            self.line += 1;
            self.col = 1;
        } else {
            self.col += 1;
        }
    }

    /// The current character, if there is one.
    fn peek(&self) -> (c: Option<char>)
        ensures
            self.pos < self.chars.len() ==> c == Some(self.chars[self.pos as int]),
            self.pos >= self.chars.len() ==> c is None,
    {
        if self.pos < self.chars.len() {
            Some(self.chars[self.pos])
        } else {
            None
        }
    }

    /// The character behind the current one, if there is one.
    fn peek_next(&self) -> (c: Option<char>)
        requires
            self.chars.len() < usize::MAX,
        ensures
            self.pos + 1 < self.chars.len() ==> c == Some(self.chars[self.pos + 1]),
            self.pos + 1 >= self.chars.len() ==> c is None,
    {
        if self.pos < self.chars.len() && self.pos + 1 < self.chars.len() {
            Some(self.chars[self.pos + 1])
        } else {
            None
        }
    }

    /// Appends the pending word as a `Word` token, empty or not, and empties it.
    fn push_word(
        &self,
        tokens: &mut Vec<Token>,
        value: &mut String,
        start_line: usize,
        start_col: usize,
    )
        requires
            self.well_formed(),
        ensures
            forall|state: LexerState|
                self.snapshot(*final(tokens), *final(value), state, start_line, start_col)
                    == with_word(
                    #[trigger] self.snapshot(*old(tokens), *old(value), state, start_line, start_col),
                ),
    {
        let token = Token::new(
            TokenKind::Word,
            value.clone(),
            Span::new(start_line, start_col, self.line, self.col.saturating_sub(1)),
        );
        proof {
            lemma_token_views_push(tokens@, token);
        }
        tokens.push(token);
        *value = String::new();
    }

    /// Appends the pending word as a `Word` token if it is not empty.
    fn push_word_if_exists(
        &self,
        tokens: &mut Vec<Token>,
        value: &mut String,
        start_line: usize,
        start_col: usize,
    )
        requires
            self.well_formed(),
        ensures
            forall|state: LexerState|
                self.snapshot(*final(tokens), *final(value), state, start_line, start_col)
                    == flushed(
                    #[trigger] self.snapshot(*old(tokens), *old(value), state, start_line, start_col),
                ),
    {
        if !value.as_str().is_empty() {
            self.push_word(tokens, value, start_line, start_col);
        }
    }

    /// The text of an operator token.
    fn operator_string(kind: TokenKind) -> (text: String)
        ensures
            text@ == operator_text(kind),
    {
        match kind {
            TokenKind::Pipe => "|".to_string(),
            TokenKind::RedirectOut => ">".to_string(),
            TokenKind::RedirectIn => "<".to_string(),
            TokenKind::Semicolon => ";".to_string(),
            TokenKind::And => "&&".to_string(),
            TokenKind::Or => "||".to_string(),
            _ => "".to_string(),
        }
    }

    /// Takes the operator at the current position, if one begins there:
    /// flushes the pending word, appends the operator's token, moves past
    /// the operator and lets the next word begin behind it. Returns whether
    /// there was an operator; if not, nothing changes.
    fn handle_special_char(
        &mut self,
        c: char,
        tokens: &mut Vec<Token>,
        current_value: &mut String,
        start_line: &mut usize,
        start_col: &mut usize,
    ) -> (handled: bool)
        requires
            old(self).well_formed(),
            old(self).pos < old(self).chars.len(),
            c == old(self).chars[old(self).pos as int],
        ensures
            final(self).well_formed(),
            final(self).chars == old(self).chars,
            handled == (operator_at(old(self).chars@, old(self).pos as int) is Some),
            match operator_at(old(self).chars@, old(self).pos as int) {
                Some((kind, width)) => {
                    &&& final(self).pos == old(self).pos + width
                    &&& final(self).snapshot(
                        *final(tokens),
                        *final(current_value),
                        LexerState::Normal,
                        *final(start_line),
                        *final(start_col),
                    ) == with_operator(
                        old(self).snapshot(
                            *old(tokens),
                            *old(current_value),
                            LexerState::Normal,
                            *old(start_line),
                            *old(start_col),
                        ),
                        kind,
                        width,
                    )
                },
                None => {
                    &&& *final(self) == *old(self)
                    &&& *final(tokens) == *old(tokens)
                    &&& *final(current_value) == *old(current_value)
                    &&& *final(start_line) == *old(start_line)
                    &&& *final(start_col) == *old(start_col)
                },
            },
    {
        let doubled = match self.peek_next() {
            Some(next) => next == c,
            None => false,
        };
        let kind = match c {
            '|' => if doubled {
                TokenKind::Or
            } else {
                TokenKind::Pipe
            },
            '&' => if doubled {
                TokenKind::And
            } else {
                return false;
            },
            ';' => TokenKind::Semicolon,
            '>' => TokenKind::RedirectOut,
            '<' => TokenKind::RedirectIn,
            _ => {
                return false;
            },
        };
        let wide = matches!(kind, TokenKind::Or | TokenKind::And);
        self.push_word_if_exists(tokens, current_value, *start_line, *start_col);
        let end_col = if wide {
            self.col + 1
        } else {
            self.col
        };
        let token = Token::new(
            kind,
            Self::operator_string(kind),
            Span::new(self.line, self.col, self.line, end_col),
        );
        proof {
            lemma_token_views_push(tokens@, token);
        }
        tokens.push(token);
        self.advance();
        if wide {
            self.advance();
        }
        *start_line = self.line;
        *start_col = self.col;
        true
    }

    /// Lexes the input: the tokens, with `Eof` as the last and nowhere
    /// else, or `UnmatchedQuote` if the input ends inside a quoted span.
    pub fn lex(self) -> (res: Result<Vec<Token>, LexerError>)
        requires
            self.at_start(),
        ensures
            outcome_view(res) == lex_result(self.input()),
            res is Err <==> quote_left_open(self.input()),
            res is Err ==> res->Err_0 is UnmatchedQuote,
            res is Ok ==> ends_with_single_eof(token_views(res->Ok_0@)),
            res is Ok ==> no_append(token_views(res->Ok_0@)),
    {
        let ghost input = self.chars@;
        let mut lexer = self;
        let mut tokens: Vec<Token> = Vec::new();
        let mut state = LexerState::Normal;
        let mut current_value = String::new();
        let mut start_line: usize = 1;
        let mut start_col: usize = 1;
        assert(lexer.snapshot(tokens, current_value, state, start_line, start_col) == initial()) by {
            assert(token_views(tokens@) =~= Seq::<TokenView>::empty());
        }
        loop
            invariant_except_break
                scan(
                    input,
                    lexer.pos as nat,
                    lexer.snapshot(tokens, current_value, state, start_line, start_col),
                ) == scan(input, 0, initial()),
            invariant
                lexer.chars@ == input,
                lexer.well_formed(),
            ensures
                flushed(lexer.snapshot(tokens, current_value, state, start_line, start_col))
                    == flushed(scan(input, 0, initial())),
            decreases lexer.chars.len() - lexer.pos,
        {
            let c = match lexer.peek() {
                Some(c) => c,
                None => {
                    break;
                },
            };
            match state {
                LexerState::Normal => {
                    if !lexer.handle_special_char(
                        c,
                        &mut tokens,
                        &mut current_value,
                        &mut start_line,
                        &mut start_col,
                    ) {
                        if c == ' ' || c == '\t' {
                            lexer.push_word_if_exists(
                                &mut tokens,
                                &mut current_value,
                                start_line,
                                start_col,
                            );
                            lexer.advance();
                            start_line = lexer.line;
                            start_col = lexer.col;
                        } else if c == '"' || c == '\'' {
                            lexer.push_word_if_exists(
                                &mut tokens,
                                &mut current_value,
                                start_line,
                                start_col,
                            );
                            state = LexerState::InQuote(c);
                            lexer.advance();
                            start_line = lexer.line;
                            start_col = lexer.col;
                        } else if c == '\\' {
                            state = LexerState::Escaped(None);
                            lexer.advance();
                        } else if c == '\n' || c == '\r' {
                            break;
                        } else {
                            if current_value.as_str().is_empty() {
                                start_line = lexer.line;
                                start_col = lexer.col;
                            }
                            current_value.push(c);
                            lexer.advance();
                        }
                    }
                },
                LexerState::InQuote(quote) => {
                    if c == quote {
                        lexer.push_word(&mut tokens, &mut current_value, start_line, start_col);
                        state = LexerState::Normal;
                        lexer.advance();
                        start_line = lexer.line;
                        start_col = lexer.col;
                    } else if c == '\\' {
                        state = LexerState::Escaped(Some(quote));
                        lexer.advance();
                    } else {
                        current_value.push(c);
                        lexer.advance();
                    }
                },
                LexerState::Escaped(resume) => {
                    current_value.push(c);
                    state = match resume {
                        Some(quote) => LexerState::InQuote(quote),
                        None => LexerState::Normal,
                    };
                    lexer.advance();
                },
            }
        }
        lexer.push_word_if_exists(&mut tokens, &mut current_value, start_line, start_col);
        proof {
            lemma_lex_total(input);
            lemma_lex_never_appends(input);
        }
        if let LexerState::InQuote(_) = state {
            return Err(
                LexerError::UnmatchedQuote(
                    Span::new(start_line, start_col, lexer.line, lexer.col),
                ),
            );
        }
        let eof = Token::new(
            TokenKind::Eof,
            "".to_string(),
            Span::new(lexer.line, lexer.col, lexer.line, lexer.col),
        );
        proof {
            lemma_token_views_push(tokens@, eof);
        }
        tokens.push(eof);
        Ok(tokens)
    }
}

} // verus!
