//! The grammar, from the tightest binding to the loosest: a simple command
//! is a run of words; redirections wrap a simple command; `|` joins
//! redirected commands; `&&` and `||` join pipelines; `;` separates
//! logical terms. Every level folds to the left.
//!
//! Each function takes the tokens and a position, and gives the command
//! that begins there together with the position behind it, or the error.

use vstd::prelude::*;
use crate::lexer::types::{TokenKind, TokenView};
use super::types::{CommandView, ExpectedView, ParseErrorView, redirect_of};

verus! {

/// The number of `Word` tokens that follow one another from `pos` on.
pub open spec fn word_run(tokens: Seq<TokenView>, pos: nat) -> nat
    decreases tokens.len() - pos,
{
    if pos < tokens.len() && tokens[pos as int].kind == TokenKind::Word {
        1 + word_run(tokens, pos + 1)
    } else {
        0
    }
}

/// The texts of the `count` tokens from `pos` on.
pub open spec fn texts(tokens: Seq<TokenView>, pos: nat, count: nat) -> Seq<Seq<char>> {
    Seq::new(count, |i: int| tokens[pos + i].value)
}

/// The token that an error at `pos` names: the one at `pos`, or the last
/// one where `pos` is behind the end.
pub open spec fn current_at(tokens: Seq<TokenView>, pos: nat) -> TokenView {
    if pos < tokens.len() {
        tokens[pos as int]
    } else {
        tokens[tokens.len() - 1]
    }
}

/// A simple command: all the words from `pos` on, at least one.
pub open spec fn simple_term(tokens: Seq<TokenView>, pos: nat) -> Result<
    (CommandView, nat),
    ParseErrorView,
> {
    let count = word_run(tokens, pos);
    if count == 0 {
        Err(ParseErrorView::EmptyCommand)
    } else {
        Ok((CommandView::Simple { args: texts(tokens, pos, count) }, pos + count))
    }
}

/// The redirections behind `command`: each is an operator and a word, and
/// wraps what stands before it.
pub open spec fn redirect_tail(tokens: Seq<TokenView>, pos: nat, command: CommandView) -> Result<
    (CommandView, nat),
    ParseErrorView,
>
    decreases tokens.len() - pos,
{
    if pos < tokens.len() && redirect_of(tokens[pos as int].kind) is Some {
        if pos + 1 < tokens.len() && tokens[pos + 1 as int].kind == TokenKind::Word {
            redirect_tail(
                tokens,
                pos + 2,
                CommandView::Redirect {
                    command: Box::new(command),
                    operator: redirect_of(tokens[pos as int].kind)->0,
                    filename: tokens[pos + 1 as int].value,
                },
            )
        } else {
            Err(
                ParseErrorView::UnexpectedToken(
                    current_at(tokens, pos + 1),
                    ExpectedView::Filename,
                ),
            )
        }
    } else {
        Ok((command, pos))
    }
}

/// A simple command with its redirections.
pub open spec fn redirect_term(tokens: Seq<TokenView>, pos: nat) -> Result<
    (CommandView, nat),
    ParseErrorView,
> {
    match simple_term(tokens, pos) {
        Ok((command, next)) => redirect_tail(tokens, next, command),
        Err(e) => Err(e),
    }
}

/// The pipeline stages behind `command`.
pub open spec fn pipe_tail(tokens: Seq<TokenView>, pos: nat, command: CommandView) -> Result<
    (CommandView, nat),
    ParseErrorView,
>
    decreases tokens.len() - pos,
{
    if pos < tokens.len() && tokens[pos as int].kind == TokenKind::Pipe {
        match redirect_term(tokens, pos + 1) {
            Ok((right, next)) => {
                proof {
                    lemma_redirect_term_advances(tokens, pos + 1);
                }
                pipe_tail(
                    tokens,
                    next,
                    CommandView::Pipe { left: Box::new(command), right: Box::new(right) },
                )
            },
            Err(e) => Err(e),
        }
    } else {
        Ok((command, pos))
    }
}

/// A pipeline.
pub open spec fn pipe_term(tokens: Seq<TokenView>, pos: nat) -> Result<
    (CommandView, nat),
    ParseErrorView,
> {
    match redirect_term(tokens, pos) {
        Ok((command, next)) => pipe_tail(tokens, next, command),
        Err(e) => Err(e),
    }
}

/// `left` and `right` joined by `&&` or by `||`.
pub open spec fn joined(kind: TokenKind, left: CommandView, right: CommandView) -> CommandView {
    if kind == TokenKind::And {
        CommandView::And { left: Box::new(left), right: Box::new(right) }
    } else {
        CommandView::Or { left: Box::new(left), right: Box::new(right) }
    }
}

/// The pipelines that `&&` and `||` join to `command`.
pub open spec fn logical_tail(tokens: Seq<TokenView>, pos: nat, command: CommandView) -> Result<
    (CommandView, nat),
    ParseErrorView,
>
    decreases tokens.len() - pos,
{
    if pos < tokens.len() && (tokens[pos as int].kind == TokenKind::And || tokens[pos as int].kind
        == TokenKind::Or) {
        match pipe_term(tokens, pos + 1) {
            Ok((right, next)) => {
                proof {
                    lemma_pipe_term_advances(tokens, pos + 1);
                }
                logical_tail(tokens, next, joined(tokens[pos as int].kind, command, right))
            },
            Err(e) => Err(e),
        }
    } else {
        Ok((command, pos))
    }
}

/// Pipelines joined by `&&` and `||`.
pub open spec fn logical_term(tokens: Seq<TokenView>, pos: nat) -> Result<
    (CommandView, nat),
    ParseErrorView,
> {
    match pipe_term(tokens, pos) {
        Ok((command, next)) => logical_tail(tokens, next, command),
        Err(e) => Err(e),
    }
}

/// Whether the tokens are used up at `pos`: nothing is left, or `Eof`.
pub open spec fn at_end(tokens: Seq<TokenView>, pos: nat) -> bool {
    pos >= tokens.len() || tokens[pos as int].kind == TokenKind::Eof
}

/// The members of a sequence behind a `;`, added to `commands`: logical
/// terms with `;` between them, until the tokens are used up or no `;`
/// follows.
pub open spec fn sequence_tail(
    tokens: Seq<TokenView>,
    pos: nat,
    commands: Seq<CommandView>,
) -> Result<(Seq<CommandView>, nat), ParseErrorView>
    decreases tokens.len() - pos,
{
    if at_end(tokens, pos) {
        Ok((commands, pos))
    } else {
        match logical_term(tokens, pos) {
            Ok((command, next)) => {
                if next < tokens.len() && tokens[next as int].kind == TokenKind::Semicolon {
                    proof {
                        lemma_logical_term_advances(tokens, pos);
                    }
                    sequence_tail(tokens, next + 1, commands.push(command))
                } else {
                    Ok((commands.push(command), next))
                }
            },
            Err(e) => Err(e),
        }
    }
}

/// A whole line: one logical term, or several with `;` between them. One
/// member alone stands for itself.
pub open spec fn sequence_term(tokens: Seq<TokenView>, pos: nat) -> Result<
    (CommandView, nat),
    ParseErrorView,
> {
    match logical_term(tokens, pos) {
        Ok((first, next)) => {
            if next < tokens.len() && tokens[next as int].kind == TokenKind::Semicolon {
                match sequence_tail(tokens, next + 1, seq![first]) {
                    Ok((commands, end)) => if commands.len() == 1 {
                        Ok((commands[0], end))
                    } else {
                        Ok((CommandView::Sequence { commands }, end))
                    },
                    Err(e) => Err(e),
                }
            } else {
                Ok((first, next))
            }
        },
        Err(e) => Err(e),
    }
}

/// The command that the tokens from `pos` on spell, all of them but a
/// closing `Eof`, or the error in them.
pub open spec fn parse_from(tokens: Seq<TokenView>, pos: nat) -> Result<
    CommandView,
    ParseErrorView,
> {
    match sequence_term(tokens, pos) {
        Ok((command, end)) => if at_end(tokens, end) {
            Ok(command)
        } else {
            Err(
                ParseErrorView::UnexpectedToken(
                    tokens[end as int],
                    ExpectedView::Operator("end of command"@),
                ),
            )
        },
        Err(e) => Err(e),
    }
}

/// The command that the tokens spell.
pub open spec fn parse_result(tokens: Seq<TokenView>) -> Result<CommandView, ParseErrorView> {
    parse_from(tokens, 0)
}

/// A run of words ends within the tokens.
pub proof fn lemma_word_run_bound(tokens: Seq<TokenView>, pos: nat)
    ensures
        pos <= tokens.len() ==> pos + word_run(tokens, pos) <= tokens.len(),
        forall|i: int|
            pos <= i < pos + word_run(tokens, pos) ==> (#[trigger] tokens[i]).kind
                == TokenKind::Word,
        pos + word_run(tokens, pos) < tokens.len() ==> tokens[pos + word_run(tokens, pos) as int].kind
            != TokenKind::Word,
    decreases tokens.len() - pos,
{
    if pos < tokens.len() && tokens[pos as int].kind == TokenKind::Word {
        lemma_word_run_bound(tokens, pos + 1);
    }
}

/// Redirections only move forward, and stay within the tokens.
pub proof fn lemma_redirect_tail_advances(tokens: Seq<TokenView>, pos: nat, command: CommandView)
    requires
        pos <= tokens.len(),
    ensures
        redirect_tail(tokens, pos, command) is Ok ==> pos <= redirect_tail(
            tokens,
            pos,
            command,
        )->Ok_0.1 <= tokens.len(),
    decreases tokens.len() - pos,
{
    if pos < tokens.len() && redirect_of(tokens[pos as int].kind) is Some {
        if pos + 1 < tokens.len() && tokens[pos + 1 as int].kind == TokenKind::Word {
            lemma_redirect_tail_advances(
                tokens,
                pos + 2,
                CommandView::Redirect {
                    command: Box::new(command),
                    operator: redirect_of(tokens[pos as int].kind)->0,
                    filename: tokens[pos + 1 as int].value,
                },
            );
        }
    }
}

/// A redirected command takes at least one token.
pub proof fn lemma_redirect_term_advances(tokens: Seq<TokenView>, pos: nat)
    requires
        pos <= tokens.len(),
    ensures
        redirect_term(tokens, pos) is Ok ==> pos < redirect_term(tokens, pos)->Ok_0.1
            <= tokens.len(),
{
    lemma_word_run_bound(tokens, pos);
    if let Ok((command, next)) = simple_term(tokens, pos) {
        lemma_redirect_tail_advances(tokens, next, command);
    }
}

/// Pipeline stages only move forward, and stay within the tokens.
pub proof fn lemma_pipe_tail_advances(tokens: Seq<TokenView>, pos: nat, command: CommandView)
    requires
        pos <= tokens.len(),
    ensures
        pipe_tail(tokens, pos, command) is Ok ==> pos <= pipe_tail(tokens, pos, command)->Ok_0.1
            <= tokens.len(),
    decreases tokens.len() - pos,
{
    if pos < tokens.len() && tokens[pos as int].kind == TokenKind::Pipe {
        lemma_redirect_term_advances(tokens, pos + 1);
        if let Ok((right, next)) = redirect_term(tokens, pos + 1) {
            lemma_pipe_tail_advances(
                tokens,
                next,
                CommandView::Pipe { left: Box::new(command), right: Box::new(right) },
            );
        }
    }
}

/// A pipeline takes at least one token.
pub proof fn lemma_pipe_term_advances(tokens: Seq<TokenView>, pos: nat)
    requires
        pos <= tokens.len(),
    ensures
        pipe_term(tokens, pos) is Ok ==> pos < pipe_term(tokens, pos)->Ok_0.1 <= tokens.len(),
{
    lemma_redirect_term_advances(tokens, pos);
    if let Ok((command, next)) = redirect_term(tokens, pos) {
        lemma_pipe_tail_advances(tokens, next, command);
    }
}

/// Joined pipelines only move forward, and stay within the tokens.
pub proof fn lemma_logical_tail_advances(tokens: Seq<TokenView>, pos: nat, command: CommandView)
    requires
        pos <= tokens.len(),
    ensures
        logical_tail(tokens, pos, command) is Ok ==> pos <= logical_tail(
            tokens,
            pos,
            command,
        )->Ok_0.1 <= tokens.len(),
    decreases tokens.len() - pos,
{
    if pos < tokens.len() && (tokens[pos as int].kind == TokenKind::And || tokens[pos as int].kind
        == TokenKind::Or) {
        lemma_pipe_term_advances(tokens, pos + 1);
        if let Ok((right, next)) = pipe_term(tokens, pos + 1) {
            lemma_logical_tail_advances(
                tokens,
                next,
                joined(tokens[pos as int].kind, command, right),
            );
        }
    }
}

/// A logical term takes at least one token.
pub proof fn lemma_logical_term_advances(tokens: Seq<TokenView>, pos: nat)
    requires
        pos <= tokens.len(),
    ensures
        logical_term(tokens, pos) is Ok ==> pos < logical_term(tokens, pos)->Ok_0.1
            <= tokens.len(),
{
    lemma_pipe_term_advances(tokens, pos);
    if let Ok((command, next)) = pipe_term(tokens, pos) {
        lemma_logical_tail_advances(tokens, next, command);
    }
}

} // verus!
