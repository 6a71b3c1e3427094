//! Strings: what this crate takes for granted about the standard library's,
//! and what it needs of sequences of them.

use vstd::prelude::*;

verus! {

/// `String::push` of the standard library: the character is appended at the
/// end of the string.
pub assume_specification[ String::push ](s: &mut String, c: char)
    ensures
        final(s)@ == old(s)@.push(c),
;

/// `==` on string slices, of the standard library: two slices are equal
/// exactly if they hold the same characters.
pub assume_specification[ <str as PartialEq>::eq ](a: &str, b: &str) -> (equal: bool)
    ensures
        equal == (a@ == b@),
;

/// Whether two string slices hold the same characters.
pub fn same_text(a: &str, b: &str) -> (equal: bool)
    ensures
        equal == (a@ == b@),
{
    a.eq(b)
}

/// The values of a sequence of strings, in order.
pub open spec fn string_views(strings: Seq<String>) -> Seq<Seq<char>> {
    Seq::new(strings.len(), |i: int| strings[i]@)
}

/// Appending a string appends its value.
pub proof fn lemma_string_views_push(strings: Seq<String>, s: String)
    ensures
        string_views(strings.push(s)) == string_views(strings).push(s@),
{
    assert(string_views(strings.push(s)) =~= string_views(strings).push(s@));
}

/// Copies of the strings, in order.
pub fn clone_strings(items: &[String]) -> (copies: Vec<String>)
    ensures
        string_views(copies@) == string_views(items@),
{
    let mut copies: Vec<String> = Vec::new();
    let mut i: usize = 0;
    while i < items.len()
        invariant
            i <= items.len(),
            string_views(copies@) == string_views(items@).take(i as int),
        decreases items.len() - i,
    {
        let item = items[i].clone();
        proof {
            lemma_string_views_push(copies@, item);
            assert(string_views(items@).take(i as int).push(item@) =~= string_views(items@).take(
                i + 1,
            ));
        }
        copies.push(item);
        i += 1;
    }
    assert(string_views(items@).take(items.len() as int) =~= string_views(items@));
    copies
}

} // verus!
