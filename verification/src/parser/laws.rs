//! What holds of every command tree that the grammar yields.

use vstd::prelude::*;
use crate::lexer::types::{TokenKind, TokenView};
use super::grammar::{
    joined, lemma_logical_term_advances, lemma_pipe_term_advances, lemma_redirect_term_advances,
    logical_tail, logical_term, parse_from, pipe_tail, pipe_term, redirect_tail, redirect_term,
    sequence_tail, simple_term, at_end,
};
use super::types::{redirect_of, CommandView, ExpectedView, ParseErrorView};

verus! {

/// Whether a command tree is one that parsing can yield: every simple
/// command has at least one argument, its name, and every sequence at least
/// two members.
pub open spec fn well_formed(command: CommandView) -> bool
    decreases command,
{
    match command {
        CommandView::Simple { args } => args.len() >= 1,
        CommandView::Pipe { left, right } => well_formed(*left) && well_formed(*right),
        CommandView::Redirect { command, .. } => well_formed(*command),
        CommandView::And { left, right } => well_formed(*left) && well_formed(*right),
        CommandView::Or { left, right } => well_formed(*left) && well_formed(*right),
        CommandView::Sequence { commands } => commands.len() >= 2 && forall|i: int|
            0 <= i < commands.len() ==> well_formed(#[trigger] commands[i]),
    }
}

/// Whether all of `commands` are well formed.
pub open spec fn all_well_formed(commands: Seq<CommandView>) -> bool {
    forall|i: int| 0 <= i < commands.len() ==> well_formed(#[trigger] commands[i])
}

proof fn lemma_redirect_tail_well_formed(tokens: Seq<TokenView>, pos: nat, command: CommandView)
    requires
        well_formed(command),
    ensures
        redirect_tail(tokens, pos, command) is Ok ==> well_formed(
            redirect_tail(tokens, pos, command)->Ok_0.0,
        ),
    decreases tokens.len() - pos,
{
    if pos < tokens.len() && redirect_of(tokens[pos as int].kind) is Some {
        if pos + 1 < tokens.len() && tokens[pos + 1 as int].kind == TokenKind::Word {
            lemma_redirect_tail_well_formed(
                tokens,
                pos + 2,
                CommandView::Redirect {
                    command: Box::new(command),
                    operator: redirect_of(tokens[pos as int].kind)->0,
                    filename: tokens[pos + 1 as int].value,
                },
            );
        }
    }
}

proof fn lemma_redirect_term_well_formed(tokens: Seq<TokenView>, pos: nat)
    ensures
        redirect_term(tokens, pos) is Ok ==> well_formed(redirect_term(tokens, pos)->Ok_0.0),
{
    if let Ok((command, next)) = simple_term(tokens, pos) {
        lemma_redirect_tail_well_formed(tokens, next, command);
    }
}

proof fn lemma_pipe_tail_well_formed(tokens: Seq<TokenView>, pos: nat, command: CommandView)
    requires
        well_formed(command),
        pos <= tokens.len(),
    ensures
        pipe_tail(tokens, pos, command) is Ok ==> well_formed(
            pipe_tail(tokens, pos, command)->Ok_0.0,
        ),
    decreases tokens.len() - pos,
{
    if pos < tokens.len() && tokens[pos as int].kind == TokenKind::Pipe {
        lemma_redirect_term_advances(tokens, pos + 1);
        lemma_redirect_term_well_formed(tokens, pos + 1);
        if let Ok((right, next)) = redirect_term(tokens, pos + 1) {
            lemma_pipe_tail_well_formed(
                tokens,
                next,
                CommandView::Pipe { left: Box::new(command), right: Box::new(right) },
            );
        }
    }
}

proof fn lemma_pipe_term_well_formed(tokens: Seq<TokenView>, pos: nat)
    requires
        pos <= tokens.len(),
    ensures
        pipe_term(tokens, pos) is Ok ==> well_formed(pipe_term(tokens, pos)->Ok_0.0),
{
    lemma_redirect_term_advances(tokens, pos);
    lemma_redirect_term_well_formed(tokens, pos);
    if let Ok((command, next)) = redirect_term(tokens, pos) {
        lemma_pipe_tail_well_formed(tokens, next, command);
    }
}

proof fn lemma_logical_tail_well_formed(tokens: Seq<TokenView>, pos: nat, command: CommandView)
    requires
        well_formed(command),
        pos <= tokens.len(),
    ensures
        logical_tail(tokens, pos, command) is Ok ==> well_formed(
            logical_tail(tokens, pos, command)->Ok_0.0,
        ),
    decreases tokens.len() - pos,
{
    if pos < tokens.len() && (tokens[pos as int].kind == TokenKind::And || tokens[pos as int].kind
        == TokenKind::Or) {
        lemma_pipe_term_advances(tokens, pos + 1);
        lemma_pipe_term_well_formed(tokens, pos + 1);
        if let Ok((right, next)) = pipe_term(tokens, pos + 1) {
            lemma_logical_tail_well_formed(
                tokens,
                next,
                joined(tokens[pos as int].kind, command, right),
            );
        }
    }
}

proof fn lemma_logical_term_well_formed(tokens: Seq<TokenView>, pos: nat)
    requires
        pos <= tokens.len(),
    ensures
        logical_term(tokens, pos) is Ok ==> well_formed(logical_term(tokens, pos)->Ok_0.0),
{
    lemma_pipe_term_advances(tokens, pos);
    lemma_pipe_term_well_formed(tokens, pos);
    if let Ok((command, next)) = pipe_term(tokens, pos) {
        lemma_logical_tail_well_formed(tokens, next, command);
    }
}

proof fn lemma_sequence_tail_well_formed(
    tokens: Seq<TokenView>,
    pos: nat,
    commands: Seq<CommandView>,
)
    requires
        all_well_formed(commands),
        pos <= tokens.len(),
    ensures
        sequence_tail(tokens, pos, commands) is Ok ==> all_well_formed(
            sequence_tail(tokens, pos, commands)->Ok_0.0,
        ) && sequence_tail(tokens, pos, commands)->Ok_0.0.len() >= commands.len(),
    decreases tokens.len() - pos,
{
    if !at_end(tokens, pos) {
        lemma_logical_term_advances(tokens, pos);
        lemma_logical_term_well_formed(tokens, pos);
        if let Ok((command, next)) = logical_term(tokens, pos) {
            let longer = commands.push(command);
            assert(all_well_formed(longer)) by {
                assert forall|i: int| 0 <= i < longer.len() implies well_formed(
                    #[trigger] longer[i],
                ) by {
                    if i < commands.len() {
                        assert(longer[i] == commands[i]);
                    }
                }
            }
            if next < tokens.len() && tokens[next as int].kind == TokenKind::Semicolon {
                lemma_sequence_tail_well_formed(tokens, next + 1, longer);
            }
        }
    }
}

/// A command that parsing yields is well formed: no simple command in it
/// is without a name, and no sequence has fewer than two members.
pub proof fn lemma_parsed_is_well_formed(tokens: Seq<TokenView>, pos: nat)
    requires
        pos <= tokens.len(),
    ensures
        parse_from(tokens, pos) is Ok ==> well_formed(parse_from(tokens, pos)->Ok_0),
{
    lemma_logical_term_advances(tokens, pos);
    lemma_logical_term_well_formed(tokens, pos);
    if let Ok((first, next)) = logical_term(tokens, pos) {
        if next < tokens.len() && tokens[next as int].kind == TokenKind::Semicolon {
            assert(all_well_formed(seq![first]));
            lemma_sequence_tail_well_formed(tokens, next + 1, seq![first]);
        }
    }
}

/// Whether an error is one of those that parsing reports: no command
/// where one has to begin, no file name behind a redirection, or a token
/// left over behind the command.
pub open spec fn is_reported(error: ParseErrorView) -> bool {
    match error {
        ParseErrorView::EmptyCommand => true,
        ParseErrorView::UnexpectedToken(_, expected) => expected == ExpectedView::Filename
            || expected == ExpectedView::Operator("end of command"@),
        _ => false,
    }
}

proof fn lemma_redirect_tail_errors(tokens: Seq<TokenView>, pos: nat, command: CommandView)
    ensures
        redirect_tail(tokens, pos, command) is Err ==> is_reported(
            redirect_tail(tokens, pos, command)->Err_0,
        ),
    decreases tokens.len() - pos,
{
    if pos < tokens.len() && redirect_of(tokens[pos as int].kind) is Some {
        if pos + 1 < tokens.len() && tokens[pos + 1 as int].kind == TokenKind::Word {
            lemma_redirect_tail_errors(
                tokens,
                pos + 2,
                CommandView::Redirect {
                    command: Box::new(command),
                    operator: redirect_of(tokens[pos as int].kind)->0,
                    filename: tokens[pos + 1 as int].value,
                },
            );
        }
    }
}

proof fn lemma_redirect_term_errors(tokens: Seq<TokenView>, pos: nat)
    ensures
        redirect_term(tokens, pos) is Err ==> is_reported(redirect_term(tokens, pos)->Err_0),
{
    if let Ok((command, next)) = simple_term(tokens, pos) {
        lemma_redirect_tail_errors(tokens, next, command);
    }
}

proof fn lemma_pipe_tail_errors(tokens: Seq<TokenView>, pos: nat, command: CommandView)
    requires
        pos <= tokens.len(),
    ensures
        pipe_tail(tokens, pos, command) is Err ==> is_reported(
            pipe_tail(tokens, pos, command)->Err_0,
        ),
    decreases tokens.len() - pos,
{
    if pos < tokens.len() && tokens[pos as int].kind == TokenKind::Pipe {
        lemma_redirect_term_advances(tokens, pos + 1);
        lemma_redirect_term_errors(tokens, pos + 1);
        if let Ok((right, next)) = redirect_term(tokens, pos + 1) {
            lemma_pipe_tail_errors(
                tokens,
                next,
                CommandView::Pipe { left: Box::new(command), right: Box::new(right) },
            );
        }
    }
}

proof fn lemma_pipe_term_errors(tokens: Seq<TokenView>, pos: nat)
    requires
        pos <= tokens.len(),
    ensures
        pipe_term(tokens, pos) is Err ==> is_reported(pipe_term(tokens, pos)->Err_0),
{
    lemma_redirect_term_advances(tokens, pos);
    lemma_redirect_term_errors(tokens, pos);
    if let Ok((command, next)) = redirect_term(tokens, pos) {
        lemma_pipe_tail_errors(tokens, next, command);
    }
}

proof fn lemma_logical_tail_errors(tokens: Seq<TokenView>, pos: nat, command: CommandView)
    requires
        pos <= tokens.len(),
    ensures
        logical_tail(tokens, pos, command) is Err ==> is_reported(
            logical_tail(tokens, pos, command)->Err_0,
        ),
    decreases tokens.len() - pos,
{
    if pos < tokens.len() && (tokens[pos as int].kind == TokenKind::And || tokens[pos as int].kind
        == TokenKind::Or) {
        lemma_pipe_term_advances(tokens, pos + 1);
        lemma_pipe_term_errors(tokens, pos + 1);
        if let Ok((right, next)) = pipe_term(tokens, pos + 1) {
            lemma_logical_tail_errors(
                tokens,
                next,
                joined(tokens[pos as int].kind, command, right),
            );
        }
    }
}

proof fn lemma_logical_term_errors(tokens: Seq<TokenView>, pos: nat)
    requires
        pos <= tokens.len(),
    ensures
        logical_term(tokens, pos) is Err ==> is_reported(logical_term(tokens, pos)->Err_0),
{
    lemma_pipe_term_advances(tokens, pos);
    lemma_pipe_term_errors(tokens, pos);
    if let Ok((command, next)) = pipe_term(tokens, pos) {
        lemma_logical_tail_errors(tokens, next, command);
    }
}

proof fn lemma_sequence_tail_errors(tokens: Seq<TokenView>, pos: nat, commands: Seq<CommandView>)
    requires
        pos <= tokens.len(),
    ensures
        sequence_tail(tokens, pos, commands) is Err ==> is_reported(
            sequence_tail(tokens, pos, commands)->Err_0,
        ),
    decreases tokens.len() - pos,
{
    if !at_end(tokens, pos) {
        lemma_logical_term_advances(tokens, pos);
        lemma_logical_term_errors(tokens, pos);
        if let Ok((command, next)) = logical_term(tokens, pos) {
            if next < tokens.len() && tokens[next as int].kind == TokenKind::Semicolon {
                lemma_sequence_tail_errors(tokens, next + 1, commands.push(command));
            }
        }
    }
}

/// Parsing fails in three ways only: `EmptyCommand`, and `UnexpectedToken`
/// where a file name or the end of the command was expected. The other
/// errors are never reported.
pub proof fn lemma_parse_errors(tokens: Seq<TokenView>, pos: nat)
    requires
        pos <= tokens.len(),
    ensures
        parse_from(tokens, pos) is Err ==> is_reported(parse_from(tokens, pos)->Err_0),
{
    lemma_logical_term_advances(tokens, pos);
    lemma_logical_term_errors(tokens, pos);
    if let Ok((first, next)) = logical_term(tokens, pos) {
        if next < tokens.len() && tokens[next as int].kind == TokenKind::Semicolon {
            lemma_sequence_tail_errors(tokens, next + 1, seq![first]);
        }
    }
}

} // verus!
