use vstd::prelude::*;
use crate::executor::types::{ExecutionResult, ExecutionResultView};
use crate::text::{lemma_string_views_push, same_text, string_views};

verus! {

/// `c` if `mode` has a bit of `mask`, else `-`.
pub open spec fn flag(mode: u32, mask: u32, c: char) -> char {
    if mode & mask != 0 {
        c
    } else {
        '-'
    }
}

/// The nine permission characters of a file mode: read, write and execute
/// for the owner, the group and the others.
pub open spec fn mode_text(mode: u32) -> Seq<char> {
    seq![
        flag(mode, 0o400, 'r'),
        flag(mode, 0o200, 'w'),
        flag(mode, 0o100, 'x'),
        flag(mode, 0o040, 'r'),
        flag(mode, 0o020, 'w'),
        flag(mode, 0o010, 'x'),
        flag(mode, 0o004, 'r'),
        flag(mode, 0o002, 'w'),
        flag(mode, 0o001, 'x'),
    ]
}

fn flag_char(mode: u32, mask: u32, c: char) -> (out: char)
    ensures
        out == flag(mode, mask, c),
{
    if mode & mask != 0 {
        c
    } else {
        '-'
    }
}

/// The permissions of a file mode as `rwxrwxrwx`, with `-` for each that is
/// not granted.
pub fn format_mode(mode: u32) -> (perms: String)
    ensures
        perms@ == mode_text(mode),
{
    let mut perms = String::new();
    perms.push(flag_char(mode, 0o400, 'r'));
    perms.push(flag_char(mode, 0o200, 'w'));
    perms.push(flag_char(mode, 0o100, 'x'));
    perms.push(flag_char(mode, 0o040, 'r'));
    perms.push(flag_char(mode, 0o020, 'w'));
    perms.push(flag_char(mode, 0o010, 'x'));
    perms.push(flag_char(mode, 0o004, 'r'));
    perms.push(flag_char(mode, 0o002, 'w'));
    perms.push(flag_char(mode, 0o001, 'x'));
    assert(perms@ =~= mode_text(mode));
    perms
}

/// The number of columns for names of at most `longest` characters on a
/// terminal of `term_width` columns: each name gets two more than
/// `longest`; there is always one column.
pub open spec fn columns(longest: nat, term_width: nat) -> nat {
    if term_width / (longest + 2) >= 1 {
        term_width / (longest + 2)
    } else {
        1
    }
}

/// The number of rows that `count` names take in `cols` columns.
pub open spec fn rows(count: nat, cols: nat) -> nat
    recommends
        cols >= 1,
{
    if count % cols == 0 {
        count / cols
    } else {
        count / cols + 1
    }
}

/// The grid for `count` names of at most `longest` characters on a terminal
/// of `term_width` columns: the number of columns and of rows. The names
/// run down the columns: the one in row `r` and column `c` is the one at
/// `c * rows + r`.
pub fn grid(count: usize, longest: usize, term_width: usize) -> (shape: (usize, usize))
    requires
        longest <= usize::MAX - 2,
    ensures
        shape.0 == columns(longest as nat, term_width as nat),
        shape.1 == rows(count as nat, shape.0 as nat),
        shape.0 >= 1,
        shape.0 * shape.1 >= count,
{
    let col_width = longest + 2;
    let fit = term_width / col_width;
    let cols = if fit >= 1 {
        fit
    } else {
        1
    };
    let full = count / cols;
    let rows = if count % cols == 0 {
        full
    } else {
        proof {
            assert(cols >= 2);
            vstd::arithmetic::div_mod::lemma_div_is_ordered_by_denominator(
                count as int,
                2,
                cols as int,
            );
        }
        full + 1
    };
    proof {
        vstd::arithmetic::div_mod::lemma_fundamental_div_mod(count as int, cols as int);
        assert(cols * rows >= count) by (nonlinear_arith)
            requires
                count == cols * (count / cols) + count % cols,
                0 <= count % cols < cols,
                count % cols == 0 ==> rows == count / cols,
                count % cols != 0 ==> rows == count / cols + 1,
        ;
    }
    (cols, rows)
}

/// Whether a name is hidden: it begins with a dot.
pub open spec fn is_hidden(name: Seq<char>) -> bool {
    name.len() > 0 && name[0] == '.'
}

/// Whether hidden names are listed too: `-a` stands among the arguments.
pub open spec fn lists_hidden(args: Seq<Seq<char>>) -> bool {
    exists|i: int| 0 <= i < args.len() && #[trigger] args[i] == "-a"@
}

/// Whether `-a` stands among the arguments.
pub fn shows_hidden(args: &[String]) -> (all: bool)
    ensures
        all == lists_hidden(string_views(args@)),
{
    let ghost words = string_views(args@);
    let mut i: usize = 0;
    while i < args.len()
        invariant
            i <= args.len(),
            words == string_views(args@),
            forall|j: int| 0 <= j < i ==> #[trigger] words[j] != "-a"@,
        decreases args.len() - i,
    {
        if same_text(args[i].as_str(), "-a") {
            assert(words[i as int] == "-a"@);
            return true;
        }
        i += 1;
    }
    false
}

/// The names that are listed, in order: all of them, or those that are not
/// hidden.
pub open spec fn listed(names: Seq<Seq<char>>, all: bool) -> Seq<Seq<char>> {
    names.filter(|name: Seq<char>| all || !is_hidden(name))
}

/// The names to list: all of them if `all`, else those that are not hidden.
pub fn visible(names: &[String], all: bool) -> (shown: Vec<String>)
    ensures
        string_views(shown@) == listed(string_views(names@), all),
{
    let ghost words = string_views(names@);
    let ghost keep = |name: Seq<char>| all || !is_hidden(name);
    let mut shown: Vec<String> = Vec::new();
    let mut i: usize = 0;
    assert(words.take(0) =~= Seq::<Seq<char>>::empty());
    assert(string_views(shown@) =~= Seq::<Seq<char>>::empty());
    while i < names.len()
        invariant
            i <= names.len(),
            words == string_views(names@),
            keep == |name: Seq<char>| all || !is_hidden(name),
            string_views(shown@) == words.take(i as int).filter(keep),
        decreases names.len() - i,
    {
        let name = &names[i];
        let hidden = !name.as_str().is_empty() && name.as_str().get_char(0) == '.';
        proof {
            let before = words.take(i as int);
            let now = words.take(i + 1);
            assert(now.drop_last() =~= before);
            assert(now.last() == name@);
            reveal(Seq::filter);
            assert(now.filter(keep) == if keep(name@) {
                before.filter(keep).push(name@)
            } else {
                before.filter(keep)
            });
        }
        if all || !hidden {
            let copy = name.clone();
            proof {
                lemma_string_views_push(shown@, copy);
            }
            shown.push(copy);
        }
        i += 1;
    }
    assert(words.take(names.len() as int) =~= words);
    shown
}

/// The order of strings: by the first character in which they differ,
/// characters taken by their code points; a string comes before those that
/// it begins.
pub open spec fn text_le(a: Seq<char>, b: Seq<char>) -> bool
    decreases a.len(),
{
    if a.len() == 0 {
        true
    } else if b.len() == 0 {
        false
    } else if a[0] != b[0] {
        (a[0] as u32) < (b[0] as u32)
    } else {
        text_le(a.drop_first(), b.drop_first())
    }
}

/// Whether each of `names` comes before those behind it.
pub open spec fn in_order(names: Seq<Seq<char>>) -> bool {
    forall|i: int, j: int| 0 <= i <= j < names.len() ==> text_le(names[i], names[j])
}

/// `sort` of the standard library on strings: the same strings as before,
/// each as often as before, in ascending order. The standard library
/// orders strings byte by byte, which its documentation equates with the
/// order of the code points.
#[verifier::external_body]
fn sort_names(names: &mut Vec<String>)
    ensures
        string_views(final(names)@).to_multiset() == string_views(old(names)@).to_multiset(),
        in_order(string_views(final(names)@)),
{
    names.sort()
}

/// Whether `sorted` holds the names of `names` that are listed, in order.
pub open spec fn is_listing(sorted: Seq<Seq<char>>, names: Seq<Seq<char>>, all: bool) -> bool {
    in_order(sorted) && sorted.to_multiset() == listed(names, all).to_multiset()
}

/// The names to list, sorted: all of them if `all`, else those that are not
/// hidden.
pub fn select(names: &[String], all: bool) -> (sorted: Vec<String>)
    ensures
        is_listing(string_views(sorted@), string_views(names@), all),
{
    let mut shown = visible(names, all);
    sort_names(&mut shown);
    shown
}

/// What `ls` prints for a directory that holds `names`: the names that are
/// not hidden, or all of them if `-a` stands among `args`, sorted, one on
/// each line.
pub fn list(names: &[String], args: &[String]) -> (result: ExecutionResult)
    ensures
        result.success,
        !result.should_exit,
        exists|sorted: Seq<Seq<char>>|
            is_listing(sorted, string_views(names@), lists_hidden(string_views(args@)))
                && result.output@ == lines(sorted),
{
    let sorted = select(names, shows_hidden(args));
    render(sorted.as_slice())
}

/// The names, each with a newline behind it.
pub open spec fn lines(names: Seq<Seq<char>>) -> Seq<char>
    decreases names.len(),
{
    if names.len() == 0 {
        Seq::empty()
    } else {
        (lines(names.drop_last()) + names.last()).push('\n')
    }
}

/// The listing of `names`: one name on each line, in the order given.
pub fn render(names: &[String]) -> (result: ExecutionResult)
    ensures
        result@ == (ExecutionResultView {
            output: lines(string_views(names@)),
            success: true,
            should_exit: false,
        }),
{
    let ghost words = string_views(names@);
    let mut output = String::new();
    let mut i: usize = 0;
    assert(words.take(0) =~= Seq::<Seq<char>>::empty());
    while i < names.len()
        invariant
            i <= names.len(),
            words == string_views(names@),
            output@ == lines(words.take(i as int)),
        decreases names.len() - i,
    {
        output.append(names[i].as_str());
        output.push('\n');
        proof {
            assert(words.take(i + 1).drop_last() =~= words.take(i as int));
            assert(words.take(i + 1).last() == names[i as int]@);
        }
        i += 1;
    }
    assert(words.take(names.len() as int) =~= words);
    ExecutionResult { output, success: true, should_exit: false }
}

} // verus!
