//! The scanner as a transition system: what the lexer computes, stated on
//! sequences of characters.

use vstd::prelude::*;
use super::types::{Span, TokenKind, TokenView};

verus! {

/// Why lexing fails.
#[derive(Debug, Clone, Copy, PartialEq, Eq, Structural)]
pub enum LexerError {
    /// The input ended inside a quoted span; the span runs from where the
    /// quoted text began to the end of the input.
    UnmatchedQuote(Span),
    /// A character that no token can hold. The scanner accepts every
    /// character, so it never reports this.
    InvalidChar(char, Span),
}

/// The mode of the scanner.
#[derive(Debug, Clone, Copy, PartialEq, Eq)]
pub enum LexerState {
    /// Outside quotes.
    Normal,
    /// Inside a span that the given quote character opened.
    InQuote(char),
    /// Right after a backslash; holds the quote character of the span to
    /// return to, if the backslash stood inside one.
    Escaped(Option<char>),
}

/// All that the scanner knows at one position of the input.
pub struct Scan {
    /// The tokens produced so far.
    pub tokens: Seq<TokenView>,
    /// The pending word.
    pub word: Seq<char>,
    pub state: LexerState,
    /// Line and column of the next character, both counted from one.
    pub line: nat,
    pub col: nat,
    /// Where the pending word began.
    pub start_line: nat,
    pub start_col: nat,
}

/// The span between two positions.
pub open spec fn span_at(start_line: nat, start_col: nat, end_line: nat, end_col: nat) -> Span {
    Span {
        start_line: start_line as usize,
        start_col: start_col as usize,
        end_line: end_line as usize,
        end_col: end_col as usize,
    }
}

/// The scanner before the first character.
pub open spec fn initial() -> Scan {
    Scan {
        tokens: Seq::empty(),
        word: Seq::empty(),
        state: LexerState::Normal,
        line: 1,
        col: 1,
        start_line: 1,
        start_col: 1,
    }
}

/// The position moves past `c`.
pub open spec fn advanced(s: Scan, c: char) -> Scan {
    if c == '\n' {
        Scan { line: s.line + 1, col: 1, ..s }
    } else {
        Scan { col: s.col + 1, ..s }
    }
}

/// The next word begins at the current position.
pub open spec fn marked(s: Scan) -> Scan {
    Scan { start_line: s.line, start_col: s.col, ..s }
}

/// The pending word becomes a `Word` token, empty or not.
pub open spec fn with_word(s: Scan) -> Scan {
    Scan {
        tokens: s.tokens.push(
            TokenView {
                kind: TokenKind::Word,
                value: s.word,
                span: span_at(s.start_line, s.start_col, s.line, (s.col - 1) as nat),
            },
        ),
        word: Seq::empty(),
        ..s
    }
}

/// The pending word, if there is one, becomes a `Word` token.
pub open spec fn flushed(s: Scan) -> Scan {
    if s.word.len() > 0 {
        with_word(s)
    } else {
        s
    }
}

/// The text of an operator token.
pub open spec fn operator_text(kind: TokenKind) -> Seq<char> {
    match kind {
        TokenKind::Pipe => "|"@,
        TokenKind::RedirectOut => ">"@,
        TokenKind::RedirectIn => "<"@,
        TokenKind::Semicolon => ";"@,
        TokenKind::And => "&&"@,
        TokenKind::Or => "||"@,
        _ => ""@,
    }
}

/// The operator that begins at `pos` outside quotes, with the number of
/// characters it takes. `|` and `&` join with an immediate repetition into
/// `||` and `&&`; a lone `&` is no operator.
pub open spec fn operator_at(input: Seq<char>, pos: int) -> Option<(TokenKind, nat)>
    recommends
        0 <= pos < input.len(),
{
    let c = input[pos];
    let repeated = pos + 1 < input.len() && input[pos + 1] == c;
    if c == '|' {
        if repeated {
            Some((TokenKind::Or, 2nat))
        } else {
            Some((TokenKind::Pipe, 1nat))
        }
    } else if c == '&' {
        if repeated {
            Some((TokenKind::And, 2nat))
        } else {
            None
        }
    } else if c == ';' {
        Some((TokenKind::Semicolon, 1nat))
    } else if c == '>' {
        Some((TokenKind::RedirectOut, 1nat))
    } else if c == '<' {
        Some((TokenKind::RedirectIn, 1nat))
    } else {
        None
    }
}

/// `||` and `&&` are operators only where the character is repeated at
/// once; `|` alone is a pipe, `&` alone is no operator at all.
pub proof fn lemma_doubled_operators(input: Seq<char>, pos: int)
    requires
        0 <= pos < input.len(),
    ensures
        operator_at(input, pos) == Some((TokenKind::Or, 2nat)) <==> input[pos] == '|' && pos + 1
            < input.len() && input[pos + 1] == '|',
        operator_at(input, pos) == Some((TokenKind::And, 2nat)) <==> input[pos] == '&' && pos + 1
            < input.len() && input[pos + 1] == '&',
        operator_at(input, pos) == Some((TokenKind::Pipe, 1nat)) <==> input[pos] == '|' && !(pos
            + 1 < input.len() && input[pos + 1] == '|'),
        input[pos] == '&' && !(pos + 1 < input.len() && input[pos + 1] == '&') ==> operator_at(
            input,
            pos,
        ) is None,
{
}

/// An operator of `width` characters at the current position: the pending
/// word is flushed, the operator's token follows, and the next word begins
/// behind the operator.
pub open spec fn with_operator(s: Scan, kind: TokenKind, width: nat) -> Scan {
    let f = flushed(s);
    Scan {
        tokens: f.tokens.push(
            TokenView {
                kind,
                value: operator_text(kind),
                span: span_at(f.line, f.col, f.line, (f.col + width - 1) as nat),
            },
        ),
        col: f.col + width,
        start_line: f.line,
        start_col: f.col + width,
        ..f
    }
}

/// Whether `c` ends the line, and with it the input that is scanned.
pub open spec fn ends_line(c: char) -> bool {
    c == '\n' || c == '\r'
}

/// One character outside quotes that neither begins an operator nor ends the
/// line.
pub open spec fn plain_step(s: Scan, c: char) -> Scan {
    if c == ' ' || c == '\t' {
        marked(advanced(flushed(s), c))
    } else if c == '"' || c == '\'' {
        Scan { state: LexerState::InQuote(c), ..marked(advanced(flushed(s), c)) }
    } else if c == '\\' {
        Scan { state: LexerState::Escaped(None), ..advanced(s, c) }
    } else {
        let begun = if s.word.len() == 0 {
            marked(s)
        } else {
            s
        };
        advanced(Scan { word: begun.word.push(c), ..begun }, c)
    }
}

/// One character inside a span that `quote` opened.
pub open spec fn quoted_step(s: Scan, quote: char, c: char) -> Scan {
    if c == quote {
        Scan { state: LexerState::Normal, ..marked(advanced(with_word(s), c)) }
    } else if c == '\\' {
        Scan { state: LexerState::Escaped(Some(quote)), ..advanced(s, c) }
    } else {
        advanced(Scan { word: s.word.push(c), ..s }, c)
    }
}

/// The state that an escape returns to.
pub open spec fn resumed(resume: Option<char>) -> LexerState {
    match resume {
        Some(quote) => LexerState::InQuote(quote),
        None => LexerState::Normal,
    }
}

/// The character behind a backslash: taken as it is.
pub open spec fn escaped_step(s: Scan, resume: Option<char>, c: char) -> Scan {
    advanced(Scan { word: s.word.push(c), state: resumed(resume), ..s }, c)
}

/// The scanner run from `pos` to the end of the input, or to the end of the
/// line where that comes first outside quotes.
pub open spec fn scan(input: Seq<char>, pos: nat, s: Scan) -> Scan
    decreases input.len() - pos,
{
    if pos >= input.len() {
        s
    } else {
        let c = input[pos as int];
        match s.state {
            LexerState::Normal => match operator_at(input, pos as int) {
                Some((kind, width)) => if width >= 1 {
                    scan(input, pos + width, with_operator(s, kind, width))
                } else {
                    s
                },
                None => if ends_line(c) {
                    flushed(s)
                } else {
                    scan(input, pos + 1, plain_step(s, c))
                },
            },
            LexerState::InQuote(quote) => scan(input, pos + 1, quoted_step(s, quote, c)),
            LexerState::Escaped(resume) => scan(input, pos + 1, escaped_step(s, resume, c)),
        }
    }
}

/// A lone `&` outside quotes goes into the pending word like any other
/// character: no token is produced for it, and the word is not flushed.
pub proof fn lemma_lone_ampersand_joins_word(input: Seq<char>, pos: nat, s: Scan)
    requires
        pos < input.len(),
        s.state == LexerState::Normal,
        input[pos as int] == '&',
        !(pos + 1 < input.len() && input[pos + 1 as int] == '&'),
    ensures
        scan(input, pos, s) == scan(input, pos + 1, plain_step(s, '&')),
        plain_step(s, '&').tokens == s.tokens,
        plain_step(s, '&').word == s.word.push('&'),
        plain_step(s, '&').state == LexerState::Normal,
{
}

/// The `Eof` token at the scanner's position.
pub open spec fn eof_token(s: Scan) -> TokenView {
    TokenView {
        kind: TokenKind::Eof,
        value: ""@,
        span: span_at(s.line, s.col, s.line, s.col),
    }
}

/// What a finished scan amounts to: an error if a quoted span is still
/// open, else the tokens with `Eof` behind them.
pub open spec fn finished(s: Scan) -> Result<Seq<TokenView>, LexerError> {
    let end = flushed(s);
    match end.state {
        LexerState::InQuote(_) => Err(
            LexerError::UnmatchedQuote(span_at(end.start_line, end.start_col, end.line, end.col)),
        ),
        _ => Ok(end.tokens.push(eof_token(end))),
    }
}

/// The tokens of `input`, or the lexical error in it.
pub open spec fn lex_result(input: Seq<char>) -> Result<Seq<TokenView>, LexerError> {
    finished(scan(input, 0, initial()))
}

/// The scanner's mode alone, run from `pos` to where scanning ends: quotes
/// and backslashes decide it, nothing else.
pub open spec fn mode_from(input: Seq<char>, pos: nat, state: LexerState) -> LexerState
    decreases input.len() - pos,
{
    if pos >= input.len() {
        state
    } else {
        let c = input[pos as int];
        match state {
            LexerState::Normal => if ends_line(c) {
                state
            } else if c == '"' || c == '\'' {
                mode_from(input, pos + 1, LexerState::InQuote(c))
            } else if c == '\\' {
                mode_from(input, pos + 1, LexerState::Escaped(None))
            } else {
                mode_from(input, pos + 1, state)
            },
            LexerState::InQuote(quote) => if c == quote {
                mode_from(input, pos + 1, LexerState::Normal)
            } else if c == '\\' {
                mode_from(input, pos + 1, LexerState::Escaped(Some(quote)))
            } else {
                mode_from(input, pos + 1, state)
            },
            LexerState::Escaped(resume) => mode_from(input, pos + 1, resumed(resume)),
        }
    }
}

/// The mode in which the scan of `input` ends.
pub open spec fn final_mode(input: Seq<char>) -> LexerState {
    mode_from(input, 0, LexerState::Normal)
}

/// Whether the scan of `input` ends inside a quoted span.
pub open spec fn quote_left_open(input: Seq<char>) -> bool {
    final_mode(input) is InQuote
}

/// Whether no token of `tokens` is `Eof`.
pub open spec fn no_eof(tokens: Seq<TokenView>) -> bool {
    forall|i: int| 0 <= i < tokens.len() ==> (#[trigger] tokens[i]).kind != TokenKind::Eof
}

/// Whether `tokens` ends with an `Eof` token and holds no other.
pub open spec fn ends_with_single_eof(tokens: Seq<TokenView>) -> bool {
    &&& tokens.len() > 0
    &&& tokens.last().kind == TokenKind::Eof
    &&& no_eof(tokens.drop_last())
}

/// Whether no token of `tokens` is `RedirectAppend`.
pub open spec fn no_append(tokens: Seq<TokenView>) -> bool {
    forall|i: int|
        0 <= i < tokens.len() ==> (#[trigger] tokens[i]).kind != TokenKind::RedirectAppend
}

/// The scanner never produces a `RedirectAppend` token: `>>` is two `>`.
pub proof fn lemma_scan_never_appends(input: Seq<char>, pos: nat, s: Scan)
    requires
        no_append(s.tokens),
    ensures
        no_append(scan(input, pos, s).tokens),
    decreases input.len() - pos,
{
    if pos < input.len() {
        let c = input[pos as int];
        match s.state {
            LexerState::Normal => match operator_at(input, pos as int) {
                Some((kind, width)) => {
                    assert(no_append(with_operator(s, kind, width).tokens));
                    lemma_scan_never_appends(input, pos + width, with_operator(s, kind, width));
                },
                None => if !ends_line(c) {
                    assert(no_append(plain_step(s, c).tokens));
                    lemma_scan_never_appends(input, pos + 1, plain_step(s, c));
                },
            },
            LexerState::InQuote(quote) => {
                assert(no_append(quoted_step(s, quote, c).tokens));
                lemma_scan_never_appends(input, pos + 1, quoted_step(s, quote, c));
            },
            LexerState::Escaped(resume) => {
                lemma_scan_never_appends(input, pos + 1, escaped_step(s, resume, c));
            },
        }
    }
}

/// No token that lexing yields is `RedirectAppend`.
pub proof fn lemma_lex_never_appends(input: Seq<char>)
    ensures
        lex_result(input) is Ok ==> no_append(lex_result(input)->Ok_0),
{
    lemma_scan_never_appends(input, 0, initial());
    let end = flushed(scan(input, 0, initial()));
    assert(no_append(end.tokens));
}

/// The scanner's mode is the mode machine's, and the scanner never produces
/// an `Eof` token.
pub proof fn lemma_scan_mode(input: Seq<char>, pos: nat, s: Scan)
    requires
        no_eof(s.tokens),
    ensures
        scan(input, pos, s).state == mode_from(input, pos, s.state),
        no_eof(scan(input, pos, s).tokens),
    decreases input.len() - pos,
{
    if pos < input.len() {
        let c = input[pos as int];
        match s.state {
            LexerState::Normal => match operator_at(input, pos as int) {
                Some((kind, width)) => {
                    let next = with_operator(s, kind, width);
                    assert(no_eof(next.tokens));
                    lemma_scan_mode(input, pos + width, next);
                    if width == 2 {
                        assert(mode_from(input, pos, s.state) == mode_from(
                            input,
                            pos + 1,
                            s.state,
                        ));
                        assert(mode_from(input, pos + 1, s.state) == mode_from(
                            input,
                            pos + 2,
                            s.state,
                        ));
                    }
                },
                None => if !ends_line(c) {
                    assert(no_eof(plain_step(s, c).tokens));
                    lemma_scan_mode(input, pos + 1, plain_step(s, c));
                },
            },
            LexerState::InQuote(quote) => {
                assert(no_eof(quoted_step(s, quote, c).tokens));
                lemma_scan_mode(input, pos + 1, quoted_step(s, quote, c));
            },
            LexerState::Escaped(resume) => {
                lemma_scan_mode(input, pos + 1, escaped_step(s, resume, c));
            },
        }
    }
}

/// Lexing fails exactly on the inputs that end inside a quoted span, and
/// then with `UnmatchedQuote`; on all others the tokens end with `Eof` and
/// hold no other `Eof`.
pub proof fn lemma_lex_total(input: Seq<char>)
    ensures
        quote_left_open(input) ==> lex_result(input) is Err && lex_result(input)->Err_0
            is UnmatchedQuote,
        !quote_left_open(input) ==> lex_result(input) is Ok && ends_with_single_eof(
            lex_result(input)->Ok_0,
        ),
{
    lemma_scan_mode(input, 0, initial());
    let end = flushed(scan(input, 0, initial()));
    assert(no_eof(end.tokens));
    if !quote_left_open(input) {
        let tokens = end.tokens.push(eof_token(end));
        assert(tokens.drop_last() =~= end.tokens);
    }
}

} // verus!
