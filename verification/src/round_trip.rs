//! Words that are written out with spaces between them come back, through
//! the lexer and the parser, as the arguments of one simple command.

use vstd::prelude::*;
use crate::executor::builtins::echo::spaced;
use crate::lexer::scan::{
    ends_line, eof_token, flushed, initial, lex_result, operator_at, plain_step, scan, with_word,
    LexerState, Scan,
};
use crate::lexer::types::{TokenKind, TokenView};
use crate::parser::grammar::{
    at_end, logical_tail, logical_term, parse_result, pipe_tail, pipe_term, redirect_tail,
    redirect_term, sequence_term, simple_term, texts, word_run,
};
use crate::parser::types::CommandView;

verus! {

/// Whether the scanner takes `c` outside quotes as part of a word, whatever
/// follows: `c` is no blank, no quote, no backslash, no line end and no
/// operator character.
pub open spec fn is_plain(c: char) -> bool {
    c != ' ' && c != '\t' && c != '\n' && c != '\r' && c != '"' && c != '\'' && c != '\\' && c
        != '|' && c != '&' && c != ';' && c != '>' && c != '<'
}

/// Whether a word is not empty and made of plain characters.
pub open spec fn is_plain_word(word: Seq<char>) -> bool {
    word.len() > 0 && forall|i: int| 0 <= i < word.len() ==> is_plain(#[trigger] word[i])
}

/// Whether all of `words` are plain words.
pub open spec fn all_plain(words: Seq<Seq<char>>) -> bool {
    forall|i: int| 0 <= i < words.len() ==> is_plain_word(#[trigger] words[i])
}

/// Whether `tokens` are `Word` tokens with the texts `words`, in order.
pub open spec fn spell(tokens: Seq<TokenView>, words: Seq<Seq<char>>) -> bool {
    &&& tokens.len() == words.len()
    &&& forall|i: int|
        0 <= i < tokens.len() ==> (#[trigger] tokens[i]).kind == TokenKind::Word && tokens[i].value
            == words[i]
}

spec fn is_calm(c: char) -> bool {
    is_plain(c) || c == ' '
}

spec fn all_calm(chars: Seq<char>) -> bool {
    forall|i: int| 0 <= i < chars.len() ==> is_calm(#[trigger] chars[i])
}

/// The scanner's steps over `chars`, none of which needs a look ahead.
spec fn calm_run(chars: Seq<char>, s: Scan) -> Scan
    decreases chars.len(),
{
    if chars.len() == 0 {
        s
    } else {
        plain_step(calm_run(chars.drop_last(), s), chars.last())
    }
}

proof fn lemma_calm_run_state(chars: Seq<char>, s: Scan)
    requires
        all_calm(chars),
        s.state == LexerState::Normal,
    ensures
        calm_run(chars, s).state == LexerState::Normal,
    decreases chars.len(),
{
    if chars.len() > 0 {
        assert(all_calm(chars.drop_last())) by {
            assert forall|i: int| 0 <= i < chars.drop_last().len() implies is_calm(
                #[trigger] chars.drop_last()[i],
            ) by {
                assert(chars.drop_last()[i] == chars[i]);
            }
        }
        lemma_calm_run_state(chars.drop_last(), s);
        assert(is_calm(chars[chars.len() - 1]));
    }
}

proof fn lemma_scan_of_calm(input: Seq<char>, pos: nat, s: Scan)
    requires
        all_calm(input),
        s.state == LexerState::Normal,
        pos <= input.len(),
    ensures
        scan(input, 0, s) == scan(input, pos, calm_run(input.take(pos as int), s)),
    decreases pos,
{
    if pos == 0 {
        assert(input.take(0).len() == 0);
    } else {
        let before = (pos - 1) as nat;
        lemma_scan_of_calm(input, before, s);
        let prefix = input.take(before as int);
        let c = input[before as int];
        assert(is_calm(c));
        assert(all_calm(prefix)) by {
            assert forall|i: int| 0 <= i < prefix.len() implies is_calm(#[trigger] prefix[i]) by {
                assert(prefix[i] == input[i]);
            }
        }
        lemma_calm_run_state(prefix, s);
        let here = calm_run(prefix, s);
        assert(operator_at(input, before as int) is None);
        assert(!ends_line(c));
        assert(scan(input, before, here) == scan(input, before + 1, plain_step(here, c)));
        assert(input.take(pos as int).drop_last() =~= prefix);
        assert(input.take(pos as int).last() == c);
    }
}

proof fn lemma_calm_run_joins(a: Seq<char>, b: Seq<char>, s: Scan)
    ensures
        calm_run(a + b, s) == calm_run(b, calm_run(a, s)),
    decreases b.len(),
{
    if b.len() == 0 {
        assert(a + b =~= a);
    } else {
        lemma_calm_run_joins(a, b.drop_last(), s);
        assert((a + b).drop_last() =~= a + b.drop_last());
        assert((a + b).last() == b.last());
    }
}

proof fn lemma_calm_run_of_word(word: Seq<char>, s: Scan)
    requires
        forall|i: int| 0 <= i < word.len() ==> is_plain(#[trigger] word[i]),
    ensures
        calm_run(word, s).tokens == s.tokens,
        calm_run(word, s).word == s.word + word,
        calm_run(word, s).state == s.state,
    decreases word.len(),
{
    if word.len() == 0 {
        assert(s.word + word =~= s.word);
    } else {
        lemma_calm_run_of_word(word.drop_last(), s);
        assert(is_plain(word[word.len() - 1]));
        assert(s.word + word =~= (s.word + word.drop_last()).push(word.last()));
    }
}

proof fn lemma_spaced_is_calm(words: Seq<Seq<char>>)
    requires
        all_plain(words),
    ensures
        all_calm(spaced(words)),
    decreases words.len(),
{
    if words.len() == 1 {
        assert(is_plain_word(words[0]));
    } else if words.len() > 1 {
        let front = words.drop_last();
        assert(all_plain(front)) by {
            assert forall|i: int| 0 <= i < front.len() implies is_plain_word(
                #[trigger] front[i],
            ) by {
                assert(front[i] == words[i]);
            }
        }
        lemma_spaced_is_calm(front);
        assert(is_plain_word(words[words.len() - 1]));
        let joined = spaced(front).push(' ') + words.last();
        assert forall|i: int| 0 <= i < joined.len() implies is_calm(#[trigger] joined[i]) by {
            if i < spaced(front).len() {
                assert(joined[i] == spaced(front)[i]);
            } else if i > spaced(front).len() {
                assert(joined[i] == words.last()[i - spaced(front).len() - 1]);
            }
        }
    }
}

/// The scanner behind the last of the words: the words before it are
/// tokens, the last one is pending.
proof fn lemma_calm_run_of_words(words: Seq<Seq<char>>)
    requires
        words.len() >= 1,
        all_plain(words),
    ensures
        calm_run(spaced(words), initial()).state == LexerState::Normal,
        calm_run(spaced(words), initial()).word == words.last(),
        spell(calm_run(spaced(words), initial()).tokens, words.drop_last()),
    decreases words.len(),
{
    let last = words.last();
    assert(is_plain_word(words[words.len() - 1]));
    if words.len() == 1 {
        lemma_calm_run_of_word(last, initial());
        assert(initial().word + last =~= last);
    } else {
        let front = words.drop_last();
        assert(all_plain(front)) by {
            assert forall|i: int| 0 <= i < front.len() implies is_plain_word(
                #[trigger] front[i],
            ) by {
                assert(front[i] == words[i]);
            }
        }
        lemma_calm_run_of_words(front);
        let here = calm_run(spaced(front), initial());
        assert(is_plain_word(front[front.len() - 1]));
        let spaced_front = spaced(front).push(' ');
        assert(spaced_front.drop_last() =~= spaced(front));
        let behind = calm_run(spaced_front, initial());
        assert(behind == plain_step(here, ' '));
        assert(behind.word =~= Seq::<char>::empty());
        assert(behind.tokens == here.tokens.push(with_word(here).tokens.last()));
        lemma_calm_run_joins(spaced_front, last, initial());
        lemma_calm_run_of_word(last, behind);
        assert(behind.word + last =~= last);
        let tokens = calm_run(spaced(words), initial()).tokens;
        assert(spell(tokens, front)) by {
            assert(tokens == behind.tokens);
            assert forall|i: int| 0 <= i < tokens.len() implies (#[trigger] tokens[i]).kind
                == TokenKind::Word && tokens[i].value == front[i] by {
                if i < here.tokens.len() {
                    assert(tokens[i] == here.tokens[i]);
                    assert(front.drop_last()[i] == front[i]);
                }
            }
        }
    }
}

/// The tokens of words written out with spaces: one `Word` token for each
/// word, with the word as its text, and `Eof` behind them.
pub proof fn lemma_lex_of_spaced(words: Seq<Seq<char>>)
    requires
        words.len() >= 1,
        all_plain(words),
    ensures
        lex_result(spaced(words)) is Ok,
        lex_result(spaced(words))->Ok_0.len() == words.len() + 1,
        spell(lex_result(spaced(words))->Ok_0.drop_last(), words),
        lex_result(spaced(words))->Ok_0.last().kind == TokenKind::Eof,
{
    let input = spaced(words);
    lemma_spaced_is_calm(words);
    lemma_scan_of_calm(input, input.len(), initial());
    assert(input.take(input.len() as int) =~= input);
    lemma_calm_run_of_words(words);
    let end = calm_run(input, initial());
    assert(scan(input, 0, initial()) == end);
    assert(is_plain_word(words[words.len() - 1]));
    let done = flushed(end);
    assert(done == with_word(end));
    let tokens = done.tokens.push(eof_token(done));
    assert(lex_result(input) == Ok::<Seq<TokenView>, crate::lexer::scan::LexerError>(tokens));
    assert(tokens.drop_last() =~= done.tokens);
    assert(spell(done.tokens, words)) by {
        assert forall|i: int| 0 <= i < done.tokens.len() implies (#[trigger] done.tokens[i]).kind
            == TokenKind::Word && done.tokens[i].value == words[i] by {
            if i < end.tokens.len() {
                assert(done.tokens[i] == end.tokens[i]);
                assert(words.drop_last()[i] == words[i]);
            }
        }
    }
}

proof fn lemma_word_run_counts(tokens: Seq<TokenView>, pos: nat, end: nat)
    requires
        pos <= end <= tokens.len(),
        forall|i: int| pos <= i < end ==> (#[trigger] tokens[i]).kind == TokenKind::Word,
        end < tokens.len() ==> tokens[end as int].kind != TokenKind::Word,
    ensures
        word_run(tokens, pos) == end - pos,
    decreases end - pos,
{
    if pos < end {
        lemma_word_run_counts(tokens, pos + 1, end);
    }
}

/// Words and nothing else but a closing `Eof` parse to one simple command
/// with the words' texts as its arguments.
pub proof fn lemma_words_parse_to_simple(tokens: Seq<TokenView>)
    requires
        word_run(tokens, 0) >= 1,
        at_end(tokens, word_run(tokens, 0)),
    ensures
        parse_result(tokens) == Ok::<CommandView, crate::parser::types::ParseErrorView>(
            CommandView::Simple { args: texts(tokens, 0, word_run(tokens, 0)) },
        ),
{
    let count = word_run(tokens, 0);
    let command = CommandView::Simple { args: texts(tokens, 0, count) };
    assert(simple_term(tokens, 0) == Ok::<(CommandView, nat), crate::parser::types::ParseErrorView>(
        (command, count),
    ));
    assert(redirect_tail(tokens, count, command) == Ok::<
        (CommandView, nat),
        crate::parser::types::ParseErrorView,
    >((command, count)));
    assert(pipe_tail(tokens, count, command) == Ok::<
        (CommandView, nat),
        crate::parser::types::ParseErrorView,
    >((command, count)));
    assert(logical_tail(tokens, count, command) == Ok::<
        (CommandView, nat),
        crate::parser::types::ParseErrorView,
    >((command, count)));
    assert(redirect_term(tokens, 0) == redirect_tail(tokens, count, command));
    assert(pipe_term(tokens, 0) == pipe_tail(tokens, count, command));
    assert(logical_term(tokens, 0) == logical_tail(tokens, count, command));
    assert(sequence_term(tokens, 0) == logical_term(tokens, 0));
}

/// Plain words, written out with one space between each two, lexed and
/// parsed, give the simple command whose arguments are these words.
pub proof fn lemma_round_trip(words: Seq<Seq<char>>)
    requires
        words.len() >= 1,
        all_plain(words),
    ensures
        lex_result(spaced(words)) is Ok,
        parse_result(lex_result(spaced(words))->Ok_0) == Ok::<
            CommandView,
            crate::parser::types::ParseErrorView,
        >(CommandView::Simple { args: words }),
{
    lemma_lex_of_spaced(words);
    let tokens = lex_result(spaced(words))->Ok_0;
    let count = words.len();
    assert forall|i: int| 0 <= i < count implies (#[trigger] tokens[i]).kind
        == TokenKind::Word by {
        assert(tokens.drop_last()[i] == tokens[i]);
    }
    assert(tokens[count as int] == tokens.last());
    lemma_word_run_counts(tokens, 0, count);
    assert(texts(tokens, 0, count) =~= words) by {
        assert forall|i: int| 0 <= i < count implies texts(tokens, 0, count)[i] == words[i] by {
            assert(tokens.drop_last()[i] == tokens[i]);
        }
    }
    lemma_words_parse_to_simple(tokens);
}

} // verus!
