use vstd::prelude::*;
use crate::lexer::types::{token_views, Token, TokenKind, TokenView};
use super::grammar::{
    current_at, joined, lemma_logical_term_advances, lemma_pipe_term_advances,
    lemma_redirect_term_advances, logical_tail, logical_term, parse_from, pipe_tail, pipe_term,
    redirect_tail, redirect_term, sequence_tail, sequence_term, simple_term,
};
use super::laws::{lemma_parsed_is_well_formed, well_formed};
use super::simple::parse_simple_at;
use super::types::{
    command_views, lemma_command_views_push, Command, CommandView, Expected, ParseError,
    ParseErrorView, RedirectOp,
};

verus! {

/// The parser: the tokens and the position in them.
pub struct Parser {
    tokens: Vec<Token>,
    pos: usize,
}

/// What a parsing run returns, taken by its value.
pub open spec fn outcome_view(res: Result<Command, ParseError>) -> Result<
    CommandView,
    ParseErrorView,
> {
    match res {
        Ok(command) => Ok(command@),
        Err(e) => Err(e@),
    }
}

impl Parser {
    /// The tokens that the parser reads.
    pub closed spec fn tokens(&self) -> Seq<TokenView> {
        token_views(self.tokens@)
    }

    /// The number of tokens that the parser has taken.
    pub closed spec fn position(&self) -> nat {
        self.pos as nat
    }

    /// Whether the position lies within the tokens or right behind them.
    pub closed spec fn well_formed(&self) -> bool {
        self.pos <= self.tokens.len()
    }

    /// Whether a step from `before` left the tokens alone and gave `res`
    /// and the position that `expected` holds.
    spec fn stepped(
        &self,
        before: Parser,
        res: Result<Command, ParseError>,
        expected: Result<(CommandView, nat), ParseErrorView>,
    ) -> bool {
        &&& self.tokens == before.tokens
        &&& self.pos <= self.tokens.len()
        &&& match expected {
            Ok((command, next)) => res is Ok && res->Ok_0@ == command && self.pos == next,
            Err(e) => res is Err && res->Err_0@ == e,
        }
    }

    /// A parser at the beginning of `tokens`.
    pub fn new(tokens: Vec<Token>) -> (parser: Self)
        ensures
            parser.tokens() == token_views(tokens@),
            parser.position() == 0,
            parser.well_formed(),
    {
        Self { tokens, pos: 0 }
    }

    /// Parses the tokens from the current position on into one command.
    /// All of them have to be used up, but for a closing `Eof`.
    pub fn parse(&mut self) -> (res: Result<Command, ParseError>)
        requires
            old(self).well_formed(),
        ensures
            final(self).well_formed(),
            final(self).tokens() == old(self).tokens(),
            outcome_view(res) == parse_from(old(self).tokens(), old(self).position()),
            res is Ok ==> well_formed(res->Ok_0@),
            res is Ok ==> sequence_term(old(self).tokens(), old(self).position()) is Ok
                && final(self).position() == sequence_term(
                old(self).tokens(),
                old(self).position(),
            )->Ok_0.1,
    {
        proof {
            lemma_parsed_is_well_formed(token_views(self.tokens@), self.pos as nat);
        }
        let command = match self.parse_sequence() {
            Ok(command) => command,
            Err(e) => {
                return Err(e);
            },
        };
        if !self.is_at_end() && !self.check(TokenKind::Eof) {
            return Err(
                ParseError::UnexpectedToken(
                    self.current().duplicate(),
                    Expected::Operator("end of command".to_string()),
                ),
            );
        }
        Ok(command)
    }

    /// Parses logical terms with `;` between them.
    fn parse_sequence(&mut self) -> (res: Result<Command, ParseError>)
        requires
            old(self).pos <= old(self).tokens.len(),
        ensures
            final(self).stepped(
                *old(self),
                res,
                sequence_term(token_views(old(self).tokens@), old(self).pos as nat),
            ),
    {
        let ghost views = token_views(self.tokens@);
        let ghost start = self.pos as nat;
        let command = match self.parse_logical() {
            Ok(command) => command,
            Err(e) => {
                return Err(e);
            },
        };
        if self.match_token(TokenKind::Semicolon) {
            let ghost first = command@;
            let ghost behind = self.pos as nat;
            let mut commands: Vec<Command> = Vec::new();
            proof {
                lemma_command_views_push(commands@, command);
                assert(command_views(commands@.push(command)) =~= seq![first]);
            }
            commands.push(command);
            let mut more = true;
            while more && !self.is_at_end() && !self.check(TokenKind::Eof)
                invariant
                    self.tokens == old(self).tokens,
                    views == token_views(self.tokens@),
                    start == old(self).pos,
                    self.pos <= self.tokens.len(),
                    commands.len() >= 1,
                    1 <= behind <= self.tokens.len(),
                    logical_term(views, start) == Ok::<(CommandView, nat), ParseErrorView>(
                        (first, (behind - 1) as nat),
                    ),
                    views[behind - 1].kind == TokenKind::Semicolon,
                    more ==> sequence_tail(views, self.pos as nat, command_views(commands@))
                        == sequence_tail(views, behind, seq![first]),
                    !more ==> sequence_tail(views, behind, seq![first]) == Ok::<
                        (Seq<CommandView>, nat),
                        ParseErrorView,
                    >((command_views(commands@), self.pos as nat)),
                decreases self.tokens.len() - self.pos + (if more { 1int } else { 0int }),
            {
                proof {
                    lemma_logical_term_advances(views, self.pos as nat);
                }
                let next = match self.parse_logical() {
                    Ok(next) => next,
                    Err(e) => {
                        return Err(e);
                    },
                };
                proof {
                    lemma_command_views_push(commands@, next);
                }
                commands.push(next);
                if !self.match_token(TokenKind::Semicolon) {
                    more = false;
                }
            }
            if commands.len() == 1 {
                let only = commands.remove(0);
                Ok(only)
            } else {
                Ok(Command::sequence(commands))
            }
        } else {
            Ok(command)
        }
    }

    /// Parses pipelines joined by `&&` and `||`, folding to the left.
    fn parse_logical(&mut self) -> (res: Result<Command, ParseError>)
        requires
            old(self).pos <= old(self).tokens.len(),
        ensures
            final(self).stepped(
                *old(self),
                res,
                logical_term(token_views(old(self).tokens@), old(self).pos as nat),
            ),
    {
        let ghost views = token_views(self.tokens@);
        let ghost start = self.pos as nat;
        let mut command = match self.parse_pipe() {
            Ok(command) => command,
            Err(e) => {
                return Err(e);
            },
        };
        while self.check(TokenKind::And) || self.check(TokenKind::Or)
            invariant
                self.tokens == old(self).tokens,
                views == token_views(self.tokens@),
                start == old(self).pos,
                self.pos <= self.tokens.len(),
                logical_tail(views, self.pos as nat, command@) == logical_term(views, start),
            decreases self.tokens.len() - self.pos,
        {
            let operator_kind = self.current().kind;
            self.advance();
            proof {
                lemma_pipe_term_advances(views, self.pos as nat);
            }
            let right = match self.parse_pipe() {
                Ok(right) => right,
                Err(e) => {
                    return Err(e);
                },
            };
            command = match operator_kind {
                TokenKind::And => Command::and(command, right),
                _ => Command::or(command, right),
            };
        }
        Ok(command)
    }

    /// Parses redirected commands joined by `|`, folding to the left.
    fn parse_pipe(&mut self) -> (res: Result<Command, ParseError>)
        requires
            old(self).pos <= old(self).tokens.len(),
        ensures
            final(self).stepped(
                *old(self),
                res,
                pipe_term(token_views(old(self).tokens@), old(self).pos as nat),
            ),
    {
        let ghost views = token_views(self.tokens@);
        let ghost start = self.pos as nat;
        let mut command = match self.parse_redirect() {
            Ok(command) => command,
            Err(e) => {
                return Err(e);
            },
        };
        while self.match_token(TokenKind::Pipe)
            invariant
                self.tokens == old(self).tokens,
                views == token_views(self.tokens@),
                start == old(self).pos,
                self.pos <= self.tokens.len(),
                pipe_tail(views, self.pos as nat, command@) == pipe_term(views, start),
            decreases self.tokens.len() - self.pos,
        {
            proof {
                lemma_redirect_term_advances(views, self.pos as nat);
            }
            let right = match self.parse_redirect() {
                Ok(right) => right,
                Err(e) => {
                    return Err(e);
                },
            };
            command = Command::pipe(command, right);
        }
        Ok(command)
    }

    /// Parses a simple command and the redirections behind it; each wraps
    /// what stands before it.
    fn parse_redirect(&mut self) -> (res: Result<Command, ParseError>)
        requires
            old(self).pos <= old(self).tokens.len(),
        ensures
            final(self).stepped(
                *old(self),
                res,
                redirect_term(token_views(old(self).tokens@), old(self).pos as nat),
            ),
    {
        let ghost views = token_views(self.tokens@);
        let ghost start = self.pos as nat;
        let mut command = match self.parse_simple() {
            Ok(command) => command,
            Err(e) => {
                return Err(e);
            },
        };
        while self.check(TokenKind::RedirectOut) || self.check(TokenKind::RedirectIn) || self.check(
            TokenKind::RedirectAppend,
        )
            invariant
                self.tokens == old(self).tokens,
                views == token_views(self.tokens@),
                start == old(self).pos,
                self.pos <= self.tokens.len(),
                redirect_tail(views, self.pos as nat, command@) == redirect_term(views, start),
            decreases self.tokens.len() - self.pos,
        {
            let operator = match RedirectOp::from_token(self.current()) {
                Some(operator) => operator,
                None => {
                    return Err(ParseError::InvalidRedirect);
                },
            };
            self.advance();
            if !self.check(TokenKind::Word) {
                return Err(
                    ParseError::UnexpectedToken(self.current().duplicate(), Expected::Filename),
                );
            }
            let filename = self.current().value.clone();
            self.advance();
            command = Command::redirect(command, operator, filename);
        }
        Ok(command)
    }

    /// Parses a simple command: a run of words.
    fn parse_simple(&mut self) -> (res: Result<Command, ParseError>)
        requires
            old(self).pos <= old(self).tokens.len(),
        ensures
            final(self).stepped(
                *old(self),
                res,
                simple_term(token_views(old(self).tokens@), old(self).pos as nat),
            ),
    {
        match parse_simple_at(self.tokens.as_slice(), self.pos) {
            Ok((command, next)) => {
                self.pos = next;
                Ok(command)
            },
            Err(e) => Err(e),
        }
    }

    /// Whether all tokens are taken.
    fn is_at_end(&self) -> (end: bool)
        ensures
            end == (self.pos >= self.tokens.len()),
    {
        self.pos >= self.tokens.len()
    }

    /// The token at the position, or the last one where all are taken.
    fn current(&self) -> (token: &Token)
        requires
            self.tokens.len() > 0,
        ensures
            token@ == current_at(token_views(self.tokens@), self.pos as nat),
            self.pos < self.tokens.len() ==> *token == self.tokens[self.pos as int],
    {
        if self.is_at_end() {
            &self.tokens[self.tokens.len() - 1]
        } else {
            &self.tokens[self.pos]
        }
    }

    /// Whether a token of `kind` stands at the position.
    fn check(&self, kind: TokenKind) -> (found: bool)
        ensures
            found == (self.pos < self.tokens.len() && token_views(
                self.tokens@,
            )[self.pos as int].kind == kind),
    {
        if self.is_at_end() {
            false
        } else {
            self.tokens[self.pos].kind == kind
        }
    }

    /// Takes the token at the position, if there is one.
    fn advance(&mut self)
        ensures
            final(self).tokens == old(self).tokens,
            old(self).pos < old(self).tokens.len() ==> final(self).pos == old(self).pos + 1,
            old(self).pos >= old(self).tokens.len() ==> final(self).pos == old(self).pos,
    {
        if !self.is_at_end() {
            self.pos += 1;
        }
    }

    /// Takes the token at the position if it is of `kind`, and says whether
    /// it did.
    fn match_token(&mut self, kind: TokenKind) -> (found: bool)
        ensures
            final(self).tokens == old(self).tokens,
            found == (old(self).pos < old(self).tokens.len() && token_views(
                old(self).tokens@,
            )[old(self).pos as int].kind == kind),
            found ==> final(self).pos == old(self).pos + 1,
            !found ==> final(self).pos == old(self).pos,
    {
        if self.check(kind) {
            self.advance();
            true
        } else {
            false
        }
    }
}

} // verus!
