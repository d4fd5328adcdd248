//! The trailing trimmer: removes the maximal suffix of dots and spaces
//! (Windows mode only).

use vstd::prelude::*;
use crate::chars::copy_chars;
use crate::chars::copy_prefix;
use crate::chars::push_all;

verus! {

/// A character that may not end a name under the Windows rules.
pub open spec fn trail_char(c: char) -> bool {
    c == '.' || c == ' '
}

/// The length of the text once its maximal suffix of dots and spaces is
/// removed.
pub open spec fn trimmed_len(s: Seq<char>) -> int
    decreases s.len(),
{
    if s.len() == 0 {
        0
    } else if trail_char(s.last()) {
        trimmed_len(s.drop_last())
    } else {
        s.len() as int
    }
}

/// The text after trailing trimming: unchanged when nothing was trimmed,
/// the replacement alone when everything was trimmed, and otherwise the
/// trimmed remainder with one copy of the replacement appended.
pub open spec fn trim_trailing(s: Seq<char>, rep: Seq<char>) -> Seq<char> {
    if trimmed_len(s) == s.len() {
        s
    } else if trimmed_len(s) == 0 {
        rep
    } else {
        s.take(trimmed_len(s)) + rep
    }
}

/// `trimmed_len` is a position within bounds, the character just before it
/// (if any) is kept, and everything from it on is a dot or a space.
pub proof fn lemma_trimmed_len_bounds(s: Seq<char>)
    ensures
        0 <= trimmed_len(s) <= s.len(),
        trimmed_len(s) > 0 ==> !trail_char(s[trimmed_len(s) - 1]),
        forall|i: int| trimmed_len(s) <= i < s.len() ==> trail_char(s[i]),
    decreases s.len(),
{
    if s.len() == 0 {
    } else if trail_char(s.last()) {
        lemma_trimmed_len_bounds(s.drop_last());
        assert(forall|i: int|
            0 <= i < s.len() - 1 ==> s[i] == s.drop_last()[i]);
    } else {
    }
}

/// Whether `name` ends in a dot or a space.
pub fn has_windows_trailing(name: &Vec<char>) -> (b: bool)
    ensures
        b == (name@.len() > 0 && trail_char(name@.last())),
{
    if name.len() == 0 {
        false
    } else {
        let c = name[name.len() - 1];
        c == '.' || c == ' '
    }
}

/// Removes the maximal trailing run of dots and spaces from `name`,
/// appending one copy of `replacement` when a non-empty suffix was removed,
/// or producing `replacement` alone when nothing remains.
pub fn replace_windows_trailing(name: &Vec<char>, replacement: &Vec<char>) -> (r: Vec<char>)
    ensures
        r@ == trim_trailing(name@, replacement@),
{
    let mut end: usize = name.len();
    proof {
        assert(name@.take(name@.len() as int) =~= name@);
    }
    while end > 0 && (name[end - 1] == '.' || name[end - 1] == ' ')
        invariant
            end <= name@.len(),
            trimmed_len(name@.take(end as int)) == trimmed_len(name@),
        decreases end,
    {
        proof {
            let cur = name@.take(end as int);
            assert(cur.last() == name@[end - 1]);
            assert(cur.drop_last() =~= name@.take(end - 1));
        }
        end -= 1;
    }
    proof {
        if end > 0 {
            let cur = name@.take(end as int);
            assert(cur.last() == name@[end - 1]);
            assert(!trail_char(cur.last()));
            assert(trimmed_len(cur) == end);
        }
        assert(trimmed_len(name@) == end);
    }
    if end == name.len() {
        copy_chars(name)
    } else if end == 0 {
        copy_chars(replacement)
    } else {
        let mut r = copy_prefix(name, end);
        push_all(&mut r, replacement);
        r
    }
}

} // verus!
