use vstd::prelude::*;
use crate::executor::types::{ExecutorError, ExecutorErrorView};
use crate::text::{lemma_string_views_push, same_text, string_views};

verus! {

/// Whether an argument is an option: it begins with `-`.
pub open spec fn is_option(arg: Seq<char>) -> bool {
    arg.len() > 0 && arg[0] == '-'
}

/// The arguments that are no options, in order: the files to remove.
pub open spec fn targets_of(args: Seq<Seq<char>>) -> Seq<Seq<char>> {
    args.filter(|arg: Seq<char>| !is_option(arg))
}

/// Whether directories are to be removed with all they hold: `-r` or `-R`
/// stands among the arguments.
pub open spec fn recursive_in(args: Seq<Seq<char>>) -> bool {
    exists|i: int| 0 <= i < args.len() && (#[trigger] args[i] == "-r"@ || args[i] == "-R"@)
}

/// The error for `rm` without a file.
pub open spec fn missing_argument() -> ExecutorErrorView {
    ExecutorErrorView::InvalidArguments("rm: missing file argument"@)
}

/// Whether `-r` or `-R` stands among the arguments.
pub fn is_recursive(args: &[String]) -> (recursive: bool)
    ensures
        recursive == recursive_in(string_views(args@)),
{
    let ghost words = string_views(args@);
    let mut i: usize = 0;
    while i < args.len()
        invariant
            i <= args.len(),
            words == string_views(args@),
            forall|j: int| 0 <= j < i ==> !(#[trigger] words[j] == "-r"@ || words[j] == "-R"@),
        decreases args.len() - i,
    {
        if same_text(args[i].as_str(), "-r") || same_text(args[i].as_str(), "-R") {
            assert(words[i as int] == "-r"@ || words[i as int] == "-R"@);
            return true;
        }
        i += 1;
    }
    false
}

/// The files to remove: the arguments that are no options, in order.
pub fn targets(args: &[String]) -> (files: Vec<String>)
    ensures
        string_views(files@) == targets_of(string_views(args@)),
{
    let ghost words = string_views(args@);
    let ghost keep = |arg: Seq<char>| !is_option(arg);
    let mut files: Vec<String> = Vec::new();
    let mut i: usize = 0;
    assert(words.take(0) =~= Seq::<Seq<char>>::empty());
    assert(string_views(files@) =~= Seq::<Seq<char>>::empty());
    while i < args.len()
        invariant
            i <= args.len(),
            words == string_views(args@),
            keep == |arg: Seq<char>| !is_option(arg),
            string_views(files@) == words.take(i as int).filter(keep),
        decreases args.len() - i,
    {
        let arg = &args[i];
        let option = !arg.as_str().is_empty() && arg.as_str().get_char(0) == '-';
        proof {
            let before = words.take(i as int);
            let now = words.take(i + 1);
            assert(now.drop_last() =~= before);
            assert(now.last() == arg@);
            reveal(Seq::filter);
            assert(now.filter(keep) == if keep(arg@) {
                before.filter(keep).push(arg@)
            } else {
                before.filter(keep)
            });
        }
        if !option {
            let file = arg.clone();
            proof {
                lemma_string_views_push(files@, file);
            }
            files.push(file);
        }
        i += 1;
    }
    assert(words.take(args.len() as int) =~= words);
    files
}

/// Whether `rm` accepts `args`: at least one file has to be named.
pub fn check_arguments(args: &[String]) -> (res: Result<(), ExecutorError>)
    ensures
        targets_of(string_views(args@)).len() > 0 ==> res is Ok,
        targets_of(string_views(args@)).len() == 0 ==> res is Err && res->Err_0@
            == missing_argument(),
{
    let files = targets(args);
    assert(files@.len() == string_views(files@).len());
    if files.len() == 0 {
        return Err(ExecutorError::InvalidArguments("rm: missing file argument".to_string()));
    }
    Ok(())
}

} // verus!
