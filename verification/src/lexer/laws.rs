//! What holds of quoted and escaped text.

use vstd::prelude::*;
use super::scan::{escaped_step, flushed, quoted_step, resumed, scan, LexerState, Scan};
use super::types::TokenKind;

verus! {

/// Whether `body` holds neither `quote` nor a backslash.
pub open spec fn is_literal(body: Seq<char>, quote: char) -> bool {
    forall|i: int| 0 <= i < body.len() ==> #[trigger] body[i] != quote && body[i] != '\\'
}

/// Inside quotes, text without the quote character and without a backslash
/// is taken as it stands, blanks and operator characters included: the
/// scanner stays in the quoted span, produces no token and adds the text to
/// the pending word.
pub proof fn lemma_quoted_text_is_kept(input: Seq<char>, pos: nat, end: nat, s: Scan, quote: char)
    requires
        pos <= end <= input.len(),
        s.state == LexerState::InQuote(quote),
        is_literal(input.subrange(pos as int, end as int), quote),
    ensures
        exists|behind: Scan|
            scan(input, pos, s) == scan(input, end, behind) && behind.state == s.state
                && behind.tokens == s.tokens && behind.word == s.word + input.subrange(
                pos as int,
                end as int,
            ) && behind.start_line == s.start_line && behind.start_col == s.start_col,
    decreases end - pos,
{
    let body = input.subrange(pos as int, end as int);
    if pos == end {
        assert(s.word + body =~= s.word);
    } else {
        let c = input[pos as int];
        assert(body[0] == c);
        let next = quoted_step(s, quote, c);
        let rest = input.subrange(pos + 1 as int, end as int);
        assert(is_literal(rest, quote)) by {
            assert forall|i: int| 0 <= i < rest.len() implies #[trigger] rest[i] != quote
                && rest[i] != '\\' by {
                assert(rest[i] == body[i + 1]);
            }
        }
        lemma_quoted_text_is_kept(input, pos + 1, end, next, quote);
        let behind = choose|behind: Scan|
            scan(input, pos + 1, next) == scan(input, end, behind) && behind.state == next.state
                && behind.tokens == next.tokens && behind.word == next.word + rest
                && behind.start_line == next.start_line && behind.start_col == next.start_col;
        assert(next.word + rest =~= s.word + body);
    }
}

/// A quoted span without a backslash in it becomes one `Word` token whose
/// text is what stands between the quotes, be it empty: the word that was
/// pending before the opening quote is flushed, the token follows, and the
/// scanner goes on outside quotes behind the closing quote.
pub proof fn lemma_quoted_span_is_one_word(input: Seq<char>, pos: nat, end: nat, s: Scan)
    requires
        pos < end < input.len(),
        s.state == LexerState::Normal,
        input[pos as int] == '"' || input[pos as int] == '\'',
        input[end as int] == input[pos as int],
        is_literal(input.subrange(pos + 1 as int, end as int), input[pos as int]),
    ensures
        exists|behind: Scan|
            scan(input, pos, s) == scan(input, end + 1, behind) && behind.state
                == LexerState::Normal && behind.word == Seq::<char>::empty()
                && behind.tokens.drop_last() == flushed(s).tokens && behind.tokens.last().kind
                == TokenKind::Word && behind.tokens.last().value == input.subrange(
                pos + 1 as int,
                end as int,
            ),
{
    let quote = input[pos as int];
    let body = input.subrange(pos + 1 as int, end as int);
    let opened = super::scan::plain_step(s, quote);
    assert(super::scan::operator_at(input, pos as int) is None);
    assert(scan(input, pos, s) == scan(input, pos + 1, opened));
    lemma_quoted_text_is_kept(input, pos + 1, end, opened, quote);
    let inside = choose|inside: Scan|
        scan(input, pos + 1, opened) == scan(input, end, inside) && inside.state == opened.state
            && inside.tokens == opened.tokens && inside.word == opened.word + body
            && inside.start_line == opened.start_line && inside.start_col == opened.start_col;
    let behind = quoted_step(inside, quote, quote);
    assert(scan(input, end, inside) == scan(input, end + 1, behind));
    assert(opened.word + body =~= body);
    assert(behind.tokens.drop_last() =~= flushed(s).tokens);
}

/// The character behind a backslash is taken as it stands, whatever it is,
/// a quote or a backslash too; the scanner then is where it was before the
/// backslash.
pub proof fn lemma_escaped_character_is_kept(
    input: Seq<char>,
    pos: nat,
    s: Scan,
    resume: Option<char>,
)
    requires
        pos < input.len(),
        s.state == LexerState::Escaped(resume),
    ensures
        scan(input, pos, s) == scan(input, pos + 1, escaped_step(s, resume, input[pos as int])),
        escaped_step(s, resume, input[pos as int]).word == s.word.push(input[pos as int]),
        escaped_step(s, resume, input[pos as int]).tokens == s.tokens,
        escaped_step(s, resume, input[pos as int]).state == resumed(resume),
{
}

} // verus!
