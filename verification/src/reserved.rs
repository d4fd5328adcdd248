//! The reserved-name resolver: all-dot names and Windows reserved device
//! names.

use vstd::prelude::*;
use crate::rules::reserved_stem;
use crate::rules::stem_is_reserved;

verus! {

/// A non-empty text consisting solely of `.` characters.
pub open spec fn all_dots(s: Seq<char>) -> bool {
    s.len() > 0 && forall|i: int| 0 <= i < s.len() ==> s[i] == '.'
}

/// The index of the first `.`, or the length of the text if there is none.
pub open spec fn first_dot(s: Seq<char>) -> int
    decreases s.len(),
{
    if s.len() == 0 {
        0
    } else if s[0] == '.' {
        0
    } else {
        1 + first_dot(s.drop_first())
    }
}

/// The portion of the text before its first `.`, or the whole text if it
/// has no `.`.
pub open spec fn stem_of(s: Seq<char>) -> Seq<char> {
    s.take(first_dot(s))
}

/// A non-empty text whose stem spells a Windows reserved device name.
pub open spec fn windows_reserved(s: Seq<char>) -> bool {
    s.len() > 0 && reserved_stem(stem_of(s))
}

/// A position with no dot before it, and a dot on it unless it is the end,
/// is the first dot position.
pub proof fn lemma_first_dot_at(s: Seq<char>, k: int)
    requires
        0 <= k <= s.len(),
        forall|i: int| 0 <= i < k ==> s[i] != '.',
        k < s.len() ==> s[k] == '.',
    ensures
        first_dot(s) == k,
    decreases s.len(),
{
    if s.len() == 0 {
    } else if s[0] == '.' {
        assert(k == 0);
    } else {
        assert(k > 0);
        assert(forall|i: int| 0 <= i < k - 1 ==> s.drop_first()[i] == s[i + 1] && s[i + 1] != '.');
        lemma_first_dot_at(s.drop_first(), k - 1);
    }
}

/// Whether `name` is non-empty and consists solely of `.` characters.
pub fn is_reserved(name: &Vec<char>) -> (b: bool)
    ensures
        b == all_dots(name@),
{
    if name.len() == 0 {
        return false;
    }
    let mut i: usize = 0;
    while i < name.len()
        invariant
            i <= name@.len(),
            forall|j: int| 0 <= j < i ==> name@[j] == '.',
        decreases name@.len() - i,
    {
        if name[i] != '.' {
            return false;
        }
        i += 1;
    }
    true
}

/// Whether the portion of `name` before its first `.` spells a Windows
/// reserved device name, ASCII-case-insensitively.
pub fn is_windows_reserved(name: &Vec<char>) -> (b: bool)
    ensures
        b == windows_reserved(name@),
{
    if name.len() == 0 {
        return false;
    }
    let mut k: usize = 0;
    while k < name.len() && name[k] != '.'
        invariant
            k <= name@.len(),
            forall|j: int| 0 <= j < k ==> name@[j] != '.',
        decreases name@.len() - k,
    {
        k += 1;
    }
    proof {
        lemma_first_dot_at(name@, k as int);
    }
    stem_is_reserved(name, k)
}

} // verus!
