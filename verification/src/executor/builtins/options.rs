//! The options of a listing: `-a`, `-l` and `-F`, alone or grouped behind
//! one dash.

use vstd::prelude::*;
use crate::text::{lemma_string_views_push, string_views};

verus! {

/// What a listing is to show.
#[derive(Debug, Clone, Copy, PartialEq, Eq, Structural)]
pub struct ListFlags {
    /// `-a`: hidden names too.
    pub show_all: bool,
    /// `-l`: one entry on each line, with its details.
    pub long_format: bool,
    /// `-F`: a mark behind each name for its type.
    pub append_types: bool,
}

/// Whether an argument holds options: a dash with something behind it.
pub open spec fn is_flag_group(arg: Seq<char>) -> bool {
    arg.len() > 1 && arg[0] == '-'
}

/// The option letters of an argument, in order; none if it holds no
/// options.
pub open spec fn letters_of(arg: Seq<char>) -> Seq<char> {
    if is_flag_group(arg) {
        arg.subrange(1, arg.len() as int)
    } else {
        Seq::empty()
    }
}

/// The option letters of all arguments, in order.
pub open spec fn flag_letters(args: Seq<Seq<char>>) -> Seq<char>
    decreases args.len(),
{
    if args.len() == 0 {
        Seq::empty()
    } else {
        flag_letters(args.drop_last()) + letters_of(args.last())
    }
}

/// Whether a letter is an option that a listing knows.
pub open spec fn is_flag_letter(c: char) -> bool {
    c == 'a' || c == 'l' || c == 'F'
}

/// Whether the letter at `i` is the first that is no known option.
pub open spec fn first_unknown_at(letters: Seq<char>, i: int) -> bool {
    &&& 0 <= i < letters.len()
    &&& !is_flag_letter(letters[i])
    &&& forall|j: int| 0 <= j < i ==> is_flag_letter(#[trigger] letters[j])
}

/// Whether all letters are known options.
pub open spec fn all_known(letters: Seq<char>) -> bool {
    forall|j: int| 0 <= j < letters.len() ==> is_flag_letter(#[trigger] letters[j])
}

/// The flags that the letters set.
pub open spec fn flags_of(letters: Seq<char>) -> ListFlags {
    ListFlags {
        show_all: letters.contains('a'),
        long_format: letters.contains('l'),
        append_types: letters.contains('F'),
    }
}

/// The arguments that hold no options, in order: the paths to list.
pub open spec fn paths_of(args: Seq<Seq<char>>) -> Seq<Seq<char>> {
    args.filter(|arg: Seq<char>| !is_flag_group(arg))
}

/// The letters of the first arguments are the first of all letters.
proof fn lemma_letters_grow(args: Seq<Seq<char>>, count: int)
    requires
        0 <= count <= args.len(),
    ensures
        flag_letters(args.take(count)).len() <= flag_letters(args).len(),
        flag_letters(args.take(count)) == flag_letters(args).take(
            flag_letters(args.take(count)).len() as int,
        ),
    decreases args.len(),
{
    if count == args.len() {
        assert(args.take(count) =~= args);
        assert(flag_letters(args) =~= flag_letters(args).take(flag_letters(args).len() as int));
    } else {
        lemma_letters_grow(args.drop_last(), count);
        assert(args.drop_last().take(count) =~= args.take(count));
        let front = flag_letters(args.drop_last());
        let part = flag_letters(args.take(count));
        assert(part =~= flag_letters(args).take(part.len() as int));
    }
}

/// Reads the options and the paths of a listing. Returns the flags that
/// the option letters set together with the paths, in order; or the first
/// letter that is no known option.
pub fn read_options(args: &[String]) -> (res: Result<(ListFlags, Vec<String>), char>)
    ensures
        match res {
            Ok((flags, paths)) => {
                &&& all_known(flag_letters(string_views(args@)))
                &&& flags == flags_of(flag_letters(string_views(args@)))
                &&& string_views(paths@) == paths_of(string_views(args@))
            },
            Err(c) => exists|i: int|
                first_unknown_at(flag_letters(string_views(args@)), i) && flag_letters(
                    string_views(args@),
                )[i] == c,
        },
{
    let ghost words = string_views(args@);
    let ghost keep = |arg: Seq<char>| !is_flag_group(arg);
    let mut flags = ListFlags { show_all: false, long_format: false, append_types: false };
    let mut paths: Vec<String> = Vec::new();
    let mut i: usize = 0;
    assert(words.take(0) =~= Seq::<Seq<char>>::empty());
    assert(string_views(paths@) =~= Seq::<Seq<char>>::empty());
    while i < args.len()
        invariant
            i <= args.len(),
            words == string_views(args@),
            keep == |arg: Seq<char>| !is_flag_group(arg),
            string_views(paths@) == words.take(i as int).filter(keep),
            all_known(flag_letters(words.take(i as int))),
            flags == flags_of(flag_letters(words.take(i as int))),
        decreases args.len() - i,
    {
        let arg = args[i].as_str();
        let ghost seen = flag_letters(words.take(i as int));
        let ghost word = arg@;
        proof {
            let before = words.take(i as int);
            let now = words.take(i + 1);
            assert(now.drop_last() =~= before);
            assert(now.last() == word);
            reveal(Seq::filter);
            assert(now.filter(keep) == if keep(word) {
                before.filter(keep).push(word)
            } else {
                before.filter(keep)
            });
            assert(flag_letters(now) == seen + letters_of(word));
        }
        let n = arg.unicode_len();
        if n > 1 && arg.get_char(0) == '-' {
            let mut k: usize = 1;
            while k < n
                invariant
                    1 <= k <= n,
                    n == word.len(),
                    word == arg@,
                    i < args.len(),
                    words == string_views(args@),
                    flag_letters(words.take(i + 1)) == seen + letters_of(word),
                    is_flag_group(word),
                    all_known(seen + word.subrange(1, k as int)),
                    flags == flags_of(seen + word.subrange(1, k as int)),
                decreases n - k,
            {
                let c = arg.get_char(k);
                let ghost so_far = seen + word.subrange(1, k as int);
                proof {
                    assert(seen + word.subrange(1, k + 1) =~= so_far.push(c));
                }
                if c == 'a' {
                    flags.show_all = true;
                } else if c == 'l' {
                    flags.long_format = true;
                } else if c == 'F' {
                    flags.append_types = true;
                } else {
                    proof {
                        let all = flag_letters(words);
                        let here = flag_letters(words.take(i + 1));
                        lemma_letters_grow(words, i + 1);
                        let at = so_far.len() as int;
                        assert(here[at] == c);
                        assert(all.take(here.len() as int)[at] == c);
                        assert forall|j: int| 0 <= j < at implies is_flag_letter(
                            #[trigger] all[j],
                        ) by {
                            assert(all.take(here.len() as int)[j] == so_far[j]);
                        }
                        assert(first_unknown_at(all, at) && all[at] == c);
                    }
                    return Err(c);
                }
                proof {
                    let next = so_far.push(c);
                    assert(so_far =~= next.drop_last());
                    assert(next.last() == c);
                    assert forall|x: char| next.contains(x) == (so_far.contains(x) || x == c) by {
                        if so_far.contains(x) {
                            let j = choose|j: int| 0 <= j < so_far.len() && so_far[j] == x;
                            assert(next[j] == x);
                        }
                        if x == c {
                            assert(next[next.len() - 1] == x);
                        }
                    }
                    assert(all_known(next)) by {
                        assert forall|j: int| 0 <= j < next.len() implies is_flag_letter(
                            #[trigger] next[j],
                        ) by {
                            if j < so_far.len() {
                                assert(next[j] == so_far[j]);
                            }
                        }
                    }
                }
                k += 1;
            }
            assert(word.subrange(1, n as int) == letters_of(word));
        } else {
            let path = args[i].clone();
            proof {
                lemma_string_views_push(paths@, path);
                assert(seen + letters_of(word) =~= seen);
            }
            paths.push(path);
        }
        i += 1;
    }
    assert(words.take(args.len() as int) =~= words);
    Ok((flags, paths))
}

/// What a path of a listing stands for.
#[derive(Debug, Clone, PartialEq)]
pub enum Place {
    /// The home directory.
    Home,
    /// The path under the home directory.
    UnderHome(String),
    /// The path as it is written.
    Plain(String),
}

/// The mathematical value of a `Place`.
pub enum PlaceView {
    Home,
    UnderHome(Seq<char>),
    Plain(Seq<char>),
}

impl View for Place {
    type V = PlaceView;

    open spec fn view(&self) -> PlaceView {
        match self {
            Place::Home => PlaceView::Home,
            Place::UnderHome(rest) => PlaceView::UnderHome(rest@),
            Place::Plain(path) => PlaceView::Plain(path@),
        }
    }
}

/// Whether a path begins with `~/`.
pub open spec fn is_under_tilde(path: Seq<char>) -> bool {
    path.len() >= 2 && path[0] == '~' && path[1] == '/'
}

/// What `path` stands for: `~` is the home directory and `~/rest` is `rest`
/// under it, where the home directory is known; every other path, and
/// every path where it is not known, stands for itself.
pub open spec fn place_of(path: Seq<char>, home_known: bool) -> PlaceView {
    if home_known && path == seq!['~'] {
        PlaceView::Home
    } else if home_known && is_under_tilde(path) {
        PlaceView::UnderHome(path.subrange(2, path.len() as int))
    } else {
        PlaceView::Plain(path)
    }
}

/// Resolves a leading `~` in `path`, where the home directory is known.
pub fn expand_path(path: &str, home_known: bool) -> (place: Place)
    ensures
        place@ == place_of(path@, home_known),
{
    let n = path.unicode_len();
    if home_known && n >= 1 && path.get_char(0) == '~' {
        if n == 1 {
            assert(path@ =~= seq!['~']);
            return Place::Home;
        }
        if path.get_char(1) == '/' {
            return Place::UnderHome(path.substring_char(2, n).to_string());
        }
    }
    assert(path@ == seq!['~'] ==> path@.len() == 1);
    Place::Plain(path.to_string())
}

} // verus!
