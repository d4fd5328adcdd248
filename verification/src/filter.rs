//! The character filter: replaces every illegal or control character with
//! the replacement text, in one pass.

use vstd::prelude::*;
use crate::chars::push_all;
use crate::rules::bad_char;
use crate::rules::is_control_char;
use crate::rules::is_illegal_char;

verus! {

/// The text with every illegal or control character replaced by `rep`.
/// Each offending character independently becomes one copy of `rep`;
/// the replacement itself is not re-examined.
pub open spec fn filtered(s: Seq<char>, rep: Seq<char>) -> Seq<char>
    decreases s.len(),
{
    if s.len() == 0 {
        Seq::empty()
    } else if bad_char(s[0]) {
        rep + filtered(s.drop_first(), rep)
    } else {
        seq![s[0]] + filtered(s.drop_first(), rep)
    }
}

/// Filtering extends on the right one character at a time.
pub proof fn lemma_filtered_snoc(s: Seq<char>, rep: Seq<char>, c: char)
    ensures
        filtered(s.push(c), rep) == filtered(s, rep) + (if bad_char(c) {
            rep
        } else {
            seq![c]
        }),
    decreases s.len(),
{
    let tail = (if bad_char(c) {
        rep
    } else {
        seq![c]
    });
    if s.len() == 0 {
        assert(s.push(c)[0] == c);
        assert(s.push(c).drop_first() =~= Seq::<char>::empty());
        assert(filtered(Seq::<char>::empty(), rep) == Seq::<char>::empty());
        assert(filtered(s.push(c), rep) == tail + filtered(s.push(c).drop_first(), rep));
        assert(filtered(s, rep) == Seq::<char>::empty());
        assert(filtered(s.push(c), rep) =~= filtered(s, rep) + tail);
    } else {
        assert(s.push(c)[0] == s[0]);
        assert(s.push(c).drop_first() =~= s.drop_first().push(c));
        lemma_filtered_snoc(s.drop_first(), rep, c);
        assert(filtered(s.push(c), rep) =~= filtered(s, rep) + tail);
    }
}

/// A text without illegal or control characters passes the filter unchanged.
pub proof fn lemma_filtered_clean_id(s: Seq<char>, rep: Seq<char>)
    requires
        forall|i: int| 0 <= i < s.len() ==> !bad_char(s[i]),
    ensures
        filtered(s, rep) == s,
    decreases s.len(),
{
    if s.len() == 0 {
        assert(filtered(s, rep) =~= s);
    } else {
        lemma_filtered_clean_id(s.drop_first(), rep);
        assert(filtered(s, rep) =~= s);
    }
}

/// With an empty replacement the filter only deletes, so the result never
/// grows, and it keeps its length only when nothing was deleted.
pub proof fn lemma_filtered_empty_len(s: Seq<char>)
    ensures
        filtered(s, Seq::empty()).len() <= s.len(),
        filtered(s, Seq::empty()).len() == s.len() ==> filtered(s, Seq::empty()) == s && forall|
            i: int,
        | 0 <= i < s.len() ==> !bad_char(s[i]),
    decreases s.len(),
{
    if s.len() == 0 {
    } else {
        lemma_filtered_empty_len(s.drop_first());
        if bad_char(s[0]) {
            assert(filtered(s, Seq::empty()) =~= filtered(s.drop_first(), Seq::empty()));
        } else if filtered(s, Seq::empty()).len() == s.len() {
            assert(filtered(s.drop_first(), Seq::empty()) == s.drop_first());
            assert(filtered(s, Seq::empty()) =~= s);
            assert(forall|i: int|
                0 <= i < s.len() ==> !bad_char(s[i])) by {
                assert(forall|i: int|
                    1 <= i < s.len() ==> s[i] == s.drop_first()[i - 1] && !bad_char(
                        s.drop_first()[i - 1],
                    ));
            }
        }
    }
}

/// Every character of a filtered text with an empty replacement is clean.
pub proof fn lemma_filtered_empty_clean(s: Seq<char>)
    ensures
        forall|i: int| 0 <= i < filtered(s, Seq::empty()).len() ==> !bad_char(
            #[trigger] filtered(s, Seq::empty())[i],
        ),
    decreases s.len(),
{
    if s.len() == 0 {
    } else {
        lemma_filtered_empty_clean(s.drop_first());
        if bad_char(s[0]) {
            assert(filtered(s, Seq::empty()) =~= filtered(s.drop_first(), Seq::empty()));
        } else {
            assert(forall|i: int|
                1 <= i < filtered(s, Seq::empty()).len() ==> filtered(s, Seq::empty())[i]
                    == filtered(s.drop_first(), Seq::empty())[i - 1]);
        }
    }
}

/// Replaces every illegal or control character of `name` with `replacement`.
pub fn replace_illegal_or_control_char(name: &Vec<char>, replacement: &Vec<char>) -> (r: Vec<char>)
    ensures
        r@ == filtered(name@, replacement@),
{
    let mut r: Vec<char> = Vec::new();
    let mut i: usize = 0;
    proof {
        assert(name@.take(0) =~= Seq::<char>::empty());
        assert(r@ =~= filtered(name@.take(0), replacement@));
    }
    while i < name.len()
        invariant
            i <= name@.len(),
            r@ == filtered(name@.take(i as int), replacement@),
        decreases name@.len() - i,
    {
        let c = name[i];
        proof {
            lemma_filtered_snoc(name@.take(i as int), replacement@, c);
            assert(name@.take(i as int).push(c) =~= name@.take(i + 1));
        }
        if is_illegal_char(c) || is_control_char(c) {
            push_all(&mut r, replacement);
        } else {
            r.push(c);
            proof {
                assert(filtered(name@.take(i as int), replacement@).push(c) =~= filtered(
                    name@.take(i as int),
                    replacement@,
                ) + seq![c]);
            }
        }
        i += 1;
    }
    proof {
        assert(name@.take(name@.len() as int) =~= name@);
    }
    r
}

} // verus!
