use vstd::prelude::*;

verus! {

/// The kind of a token.
#[derive(Debug, Clone, Copy, PartialEq, Eq, Structural)]
pub enum TokenKind {
    /// A word: a command name, an argument, a file name.
    Word,
    /// `|`
    Pipe,
    /// `>`
    RedirectOut,
    /// `<`
    RedirectIn,
    /// `>>`; the scanner never produces it.
    RedirectAppend,
    /// `;`
    Semicolon,
    /// `&&`
    And,
    /// `||`
    Or,
    /// End of input.
    Eof,
}

/// A position range in the input text, kept for diagnostics only.
#[derive(Debug, Clone, Copy, PartialEq, Eq, Structural)]
pub struct Span {
    pub start_line: usize,
    pub start_col: usize,
    pub end_line: usize,
    pub end_col: usize,
}

impl Span {
    /// The span from one position to another.
    pub fn new(start_line: usize, start_col: usize, end_line: usize, end_col: usize) -> (span: Self)
        ensures
            span == (Span { start_line, start_col, end_line, end_col }),
    {
        Span { start_line, start_col, end_line, end_col }
    }
}

/// A token: its kind, its text and its place in the input.
#[derive(Debug, Clone, PartialEq)]
pub struct Token {
    pub kind: TokenKind,
    pub value: String,
    pub span: Span,
}

/// The mathematical value of a token: the text is a sequence of characters.
pub struct TokenView {
    pub kind: TokenKind,
    pub value: Seq<char>,
    pub span: Span,
}

impl View for Token {
    type V = TokenView;

    open spec fn view(&self) -> TokenView {
        TokenView { kind: self.kind, value: self.value@, span: self.span }
    }
}

/// The values of a sequence of tokens, in order.
pub open spec fn token_views(tokens: Seq<Token>) -> Seq<TokenView> {
    Seq::new(tokens.len(), |i: int| tokens[i]@)
}

/// Appending a token appends its value.
pub proof fn lemma_token_views_push(tokens: Seq<Token>, token: Token)
    ensures
        token_views(tokens.push(token)) == token_views(tokens).push(token@),
{
    assert(token_views(tokens.push(token)) =~= token_views(tokens).push(token@));
}

/// The text that `{:?}` formatting gives for a token.
pub uninterp spec fn debug_text(token: TokenView) -> Seq<char>;

/// The standard library's `{:?}` formatting of a token, through the `Debug`
/// implementation that the compiler derives: the text depends on the
/// token's kind, text and span alone.
#[verifier::external_body]
pub(crate) fn token_debug(token: &Token) -> (text: String)
    ensures
        text@ == debug_text(token@),
{
    format!("{:?}", token)
}

/// Whether a kind is one of the operators that separate or join commands.
pub open spec fn kind_is_operator(kind: TokenKind) -> bool {
    kind == TokenKind::Pipe || kind == TokenKind::RedirectOut || kind == TokenKind::RedirectIn
        || kind == TokenKind::Semicolon || kind == TokenKind::And || kind == TokenKind::Or
}

impl Token {
    /// A token of the given kind, text and place.
    pub fn new(kind: TokenKind, value: String, span: Span) -> (token: Self)
        ensures
            token == (Token { kind, value, span }),
    {
        Token { kind, value, span }
    }

    /// A copy of the token, with the same value.
    pub fn duplicate(&self) -> (token: Self)
        ensures
            token@ == self@,
    {
        Token { kind: self.kind, value: self.value.clone(), span: self.span }
    }

    /// Whether the token is a word.
    pub fn is_word(&self) -> (word: bool)
        ensures
            word == (self.kind == TokenKind::Word),
    {
        matches!(self.kind, TokenKind::Word)
    }

    /// Whether the token is an operator. `RedirectAppend` does not count
    /// as one, nor does `Eof`.
    pub fn is_operator(&self) -> (operator: bool)
        ensures
            operator == kind_is_operator(self.kind),
    {
        matches!(
            self.kind,
            TokenKind::Pipe | TokenKind::RedirectOut | TokenKind::RedirectIn | TokenKind::Semicolon
                | TokenKind::And | TokenKind::Or
        )
    }

    /// Whether the token is `>` or `<`.
    pub fn is_redirect(&self) -> (redirect: bool)
        ensures
            redirect == (self.kind == TokenKind::RedirectOut || self.kind
                == TokenKind::RedirectIn),
    {
        matches!(self.kind, TokenKind::RedirectOut | TokenKind::RedirectIn)
    }
}

} // verus!
