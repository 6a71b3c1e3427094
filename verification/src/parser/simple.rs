use vstd::prelude::*;
use crate::lexer::types::{token_views, Token};
use super::grammar::{simple_term, texts, word_run};
use super::types::{Command, CommandView, ParseError, ParseErrorView};
use crate::text::{lemma_string_views_push, string_views};

verus! {

/// Whether `res` is the command and position, or the error, of `expected`.
pub open spec fn parsed_as(
    res: Result<(Command, usize), ParseError>,
    expected: Result<(CommandView, nat), ParseErrorView>,
) -> bool {
    match expected {
        Ok((command, next)) => res is Ok && res->Ok_0.0@ == command && res->Ok_0.1 == next,
        Err(e) => res is Err && res->Err_0@ == e,
    }
}

/// Parses the simple command that begins at `start`: the words up to the
/// first token that is none. Returns it with the position behind it;
/// without a word there, `EmptyCommand`.
pub fn parse_simple_at(tokens: &[Token], start: usize) -> (res: Result<
    (Command, usize),
    ParseError,
>)
    requires
        start <= tokens.len(),
    ensures
        parsed_as(res, simple_term(token_views(tokens@), start as nat)),
        res is Ok ==> start < res->Ok_0.1 <= tokens.len(),
{
    let ghost views = token_views(tokens@);
    let mut args: Vec<String> = Vec::new();
    let mut pos = start;
    while pos < tokens.len() && tokens[pos].is_word()
        invariant
            views == token_views(tokens@),
            start <= pos <= tokens.len(),
            args.len() == pos - start,
            word_run(views, start as nat) == (pos - start) + word_run(views, pos as nat),
            string_views(args@) == texts(views, start as nat, (pos - start) as nat),
        decreases tokens.len() - pos,
    {
        let arg = tokens[pos].value.clone();
        proof {
            lemma_string_views_push(args@, arg);
            assert(texts(views, start as nat, (pos - start) as nat).push(arg@) =~= texts(
                views,
                start as nat,
                (pos + 1 - start) as nat,
            ));
        }
        args.push(arg);
        pos += 1;
    }
    if args.len() == 0 {
        return Err(ParseError::EmptyCommand);
    }
    Ok((Command::simple(args), pos))
}

/// Parses the simple command at the beginning of `tokens`: the words up to
/// the first token that is none. Returns it with the number of tokens that
/// it took; without a word at the beginning, `EmptyCommand`.
pub fn parse_simple(tokens: &[Token]) -> (res: Result<(Command, usize), ParseError>)
    ensures
        parsed_as(res, simple_term(token_views(tokens@), 0)),
{
    parse_simple_at(tokens, 0)
}

} // verus!
