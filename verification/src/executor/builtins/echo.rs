use vstd::prelude::*;
use crate::executor::types::{ExecutionResult, ExecutionResultView, ExecutorError};
use crate::text::string_views;

verus! {

/// The words with one space between each two.
pub open spec fn spaced(words: Seq<Seq<char>>) -> Seq<char>
    decreases words.len(),
{
    if words.len() == 0 {
        Seq::empty()
    } else if words.len() == 1 {
        words[0]
    } else {
        spaced(words.drop_last()).push(' ') + words.last()
    }
}

/// Whether `text` begins and ends with the same quote character, and the
/// two are not one.
pub open spec fn is_quoted(text: Seq<char>) -> bool {
    text.len() >= 2 && ((text.first() == '\'' && text.last() == '\'') || (text.first() == '"'
        && text.last() == '"'))
}

/// `text` without the pair of quotes around it, if there is one.
pub open spec fn unquoted(text: Seq<char>) -> Seq<char> {
    if is_quoted(text) {
        text.subrange(1, text.len() - 1)
    } else {
        text
    }
}

/// What `echo` prints for `args`.
pub open spec fn echo_output(args: Seq<Seq<char>>) -> Seq<char> {
    unquoted(spaced(args)).push('\n')
}

/// The arguments with a space between each two.
pub fn join_spaced(args: &[String]) -> (full: String)
    ensures
        full@ == spaced(string_views(args@)),
{
    let ghost words = string_views(args@);
    let mut full = String::new();
    let mut i: usize = 0;
    while i < args.len()
        invariant
            i <= args.len(),
            words == string_views(args@),
            full@ == spaced(words.take(i as int)),
        decreases args.len() - i,
    {
        if i > 0 {
            full.push(' ');
        }
        full.append(args[i].as_str());
        i += 1;
        proof {
            let now = words.take(i as int);
            assert(now.drop_last() =~= words.take(i - 1));
            assert(now.last() == args[i - 1]@);
            if i == 1 {
                assert(full@ =~= now[0]);
            }
        }
    }
    assert(words.take(args.len() as int) =~= words);
    full
}

/// `echo`: prints the arguments with a space between each two and a
/// newline behind them. One pair of quotes around the whole text is
/// removed.
pub fn execute(args: &[String]) -> (res: Result<ExecutionResult, ExecutorError>)
    ensures
        res is Ok,
        res->Ok_0@ == (ExecutionResultView {
            output: echo_output(string_views(args@)),
            success: true,
            should_exit: false,
        }),
{
    let full = join_spaced(args);
    let n = full.as_str().unicode_len();
    let quoted = n >= 2 && {
        let first = full.as_str().get_char(0);
        let last = full.as_str().get_char(n - 1);
        (first == '\'' && last == '\'') || (first == '"' && last == '"')
    };
    let mut output = if quoted {
        full.as_str().substring_char(1, n - 1).to_string()
    } else {
        full
    };
    output.push('\n');
    Ok(ExecutionResult { output, success: true, should_exit: false })
}

} // verus!
