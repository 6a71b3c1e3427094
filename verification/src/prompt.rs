//! What the read loop decides: whether a command goes on in the next line
//! because a quote is still open.

use vstd::prelude::*;

verus! {

/// The quote that is open behind `c`, if `open` was open before it: a quote
/// character opens a quote where none is open and closes the one that it
/// opened; everything else changes nothing.
pub open spec fn quote_step(open: Option<char>, c: char) -> Option<char> {
    if c == '\'' || c == '"' {
        match open {
            None => Some(c),
            Some(quote) => if quote == c {
                None
            } else {
                open
            },
        }
    } else {
        open
    }
}

/// The quote that is open behind `text`, if `open` was open before it.
pub open spec fn quote_after(text: Seq<char>, open: Option<char>) -> Option<char>
    decreases text.len(),
{
    if text.len() == 0 {
        open
    } else {
        quote_step(quote_after(text.drop_last(), open), text.last())
    }
}

/// The quote that is still open at the end of `line`, where `open` was open
/// at its beginning. While one is open, the command goes on in the next
/// line.
pub fn open_quote(line: &str, open: Option<char>) -> (still_open: Option<char>)
    ensures
        still_open == quote_after(line@, open),
{
    let mut current = open;
    for c in it: line.chars()
        invariant
            it.seq() == line@,
            current == quote_after(it.seq().take(it.index() as int), open),
    {
        proof {
            let before = it.seq().take(it.index() as int);
            let now = it.seq().take(it.index() + 1);
            assert(now.drop_last() =~= before);
            assert(now.last() == c);
        }
        if c == '\'' || c == '"' {
            current = match current {
                None => Some(c),
                Some(quote) => if quote == c {
                    None
                } else {
                    current
                },
            };
        }
    }
    assert(line@.take(line@.len() as int) =~= line@);
    current
}

} // verus!
