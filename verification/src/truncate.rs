//! The truncator: enforces a maximum encoded length of 255 bytes, cutting
//! only on a code-point boundary.

use vstd::prelude::*;
use vstd::utf8::char_is_scalar;
use vstd::utf8::encode_scalar;
use vstd::utf8::encode_utf8;

verus! {

/// The maximum encoded length, in bytes, of a sanitized name.
pub const MAX_LEN: usize = 255;

/// The number of bytes the UTF-8 encoding of a character takes.
pub open spec fn char_width(c: char) -> int {
    if (c as u32) < 0x80 {
        1
    } else if (c as u32) < 0x800 {
        2
    } else if (c as u32) < 0x10000 {
        3
    } else {
        4
    }
}

/// The number of bytes the UTF-8 encoding of the text takes.
pub open spec fn bytes_len(s: Seq<char>) -> int
    decreases s.len(),
{
    if s.len() == 0 {
        0
    } else {
        char_width(s[0]) + bytes_len(s.drop_first())
    }
}

/// The length of the longest prefix of the text whose UTF-8 encoding fits
/// in `max` bytes.
pub open spec fn cut_len(s: Seq<char>, max: int) -> int
    decreases s.len(),
{
    if s.len() == 0 {
        0
    } else if bytes_len(s) <= max {
        s.len() as int
    } else {
        cut_len(s.drop_last(), max)
    }
}

/// The text cut to the longest prefix whose UTF-8 encoding fits in `max`
/// bytes; unchanged when it already fits.
pub open spec fn truncate_to(s: Seq<char>, max: int) -> Seq<char> {
    if bytes_len(s) <= max {
        s
    } else {
        s.take(cut_len(s, max))
    }
}

/// `char_width` agrees with the length of the character's UTF-8 encoding.
pub proof fn lemma_char_width_encoding(c: char)
    ensures
        char_width(c) == encode_scalar(c as u32).len(),
{
    char_is_scalar(c);
}

/// `bytes_len` agrees with the length of the text's UTF-8 encoding.
pub proof fn lemma_bytes_len_encoding(s: Seq<char>)
    ensures
        bytes_len(s) == encode_utf8(s).len(),
    decreases s.len(),
{
    if s.len() == 0 {
    } else {
        lemma_char_width_encoding(s[0]);
        lemma_bytes_len_encoding(s.drop_first());
    }
}

/// The byte length extends on the right one character at a time.
pub proof fn lemma_bytes_len_snoc(s: Seq<char>, c: char)
    ensures
        bytes_len(s.push(c)) == bytes_len(s) + char_width(c),
    decreases s.len(),
{
    if s.len() == 0 {
        assert(s.push(c)[0] == c);
        assert(s.push(c).drop_first() =~= Seq::<char>::empty());
        assert(bytes_len(Seq::<char>::empty()) == 0);
    } else {
        assert(s.push(c)[0] == s[0]);
        assert(s.push(c).drop_first() =~= s.drop_first().push(c));
        lemma_bytes_len_snoc(s.drop_first(), c);
    }
}

/// The byte length of one more character of prefix.
pub proof fn lemma_bytes_len_take_succ(s: Seq<char>, k: int)
    requires
        0 <= k < s.len(),
    ensures
        bytes_len(s.take(k + 1)) == bytes_len(s.take(k)) + char_width(s[k]),
{
    assert(s.take(k + 1) =~= s.take(k).push(s[k]));
    lemma_bytes_len_snoc(s.take(k), s[k]);
}

/// Longer prefixes take at least as many bytes.
pub proof fn lemma_bytes_len_take_mono(s: Seq<char>, k: int, m: int)
    requires
        0 <= k <= m <= s.len(),
    ensures
        bytes_len(s.take(k)) <= bytes_len(s.take(m)),
    decreases m - k,
{
    if k < m {
        lemma_bytes_len_take_mono(s, k, m - 1);
        lemma_bytes_len_take_succ(s, m - 1);
    }
}

/// A fitting prefix that cannot be extended is the cut point.
pub proof fn lemma_cut_len_at(s: Seq<char>, max: int, k: int)
    requires
        0 <= k <= s.len(),
        bytes_len(s.take(k)) <= max,
        k < s.len() ==> bytes_len(s.take(k + 1)) > max,
    ensures
        cut_len(s, max) == k,
    decreases s.len(),
{
    if s.len() == 0 {
    } else if bytes_len(s) <= max {
        assert(s.take(s.len() as int) =~= s);
        if k < s.len() {
            lemma_bytes_len_take_mono(s, k + 1, s.len() as int);
            assert(false);
        }
    } else {
        assert(s.take(s.len() as int) =~= s);
        assert(k < s.len());
        let t = s.drop_last();
        assert(forall|j: int| 0 <= j <= t.len() ==> s.take(j) =~= t.take(j));
        lemma_cut_len_at(t, max, k);
    }
}

/// The cut point is within bounds and the cut prefix fits in `max` bytes.
pub proof fn lemma_cut_len_fits(s: Seq<char>, max: int)
    requires
        max >= 0,
    ensures
        0 <= cut_len(s, max) <= s.len(),
        bytes_len(s.take(cut_len(s, max))) <= max,
    decreases s.len(),
{
    if s.len() == 0 {
        assert(s.take(0) =~= Seq::<char>::empty());
    } else if bytes_len(s) <= max {
        assert(s.take(s.len() as int) =~= s);
    } else {
        let t = s.drop_last();
        lemma_cut_len_fits(t, max);
        assert(s.take(cut_len(t, max)) =~= t.take(cut_len(t, max)));
    }
}

/// The number of bytes the UTF-8 encoding of `c` takes.
pub fn char_width_of(c: char) -> (w: usize)
    ensures
        w == char_width(c),
{
    let v = c as u32;
    if v < 0x80 {
        1
    } else if v < 0x800 {
        2
    } else if v < 0x10000 {
        3
    } else {
        4
    }
}

/// Cuts `name` to the longest prefix whose UTF-8 encoding fits in
/// `MAX_LEN` bytes; copies it unchanged when it already fits.
pub fn truncate_chars(name: &Vec<char>) -> (r: Vec<char>)
    ensures
        r@ == truncate_to(name@, MAX_LEN as int),
{
    let mut r: Vec<char> = Vec::new();
    let mut used: usize = 0;
    let mut i: usize = 0;
    let mut done: bool = false;
    proof {
        assert(name@.take(0) =~= Seq::<char>::empty());
    }
    while !done && i < name.len()
        invariant
            i <= name@.len(),
            r@ == name@.take(i as int),
            used == bytes_len(name@.take(i as int)),
            used <= MAX_LEN,
            done ==> i < name@.len() && bytes_len(name@.take(i + 1)) > MAX_LEN,
        decreases 2 * (name@.len() - i) + (if done {
            0int
        } else {
            1int
        }),
    {
        let c = name[i];
        let w = char_width_of(c);
        proof {
            lemma_bytes_len_take_succ(name@, i as int);
        }
        if used + w > MAX_LEN {
            done = true;
        } else {
            r.push(c);
            proof {
                assert(name@.take(i as int).push(c) =~= name@.take(i + 1));
            }
            used = used + w;
            i += 1;
        }
    }
    proof {
        if done {
            lemma_bytes_len_take_mono(name@, i + 1, name@.len() as int);
            assert(name@.take(name@.len() as int) =~= name@);
            assert(bytes_len(name@) > MAX_LEN);
            lemma_cut_len_at(name@, MAX_LEN as int, i as int);
        } else {
            assert(name@.take(name@.len() as int) =~= name@);
            assert(bytes_len(name@) <= MAX_LEN);
        }
    }
    r
}

/// Whether the UTF-8 encoding of `name` takes more than `MAX_LEN` bytes.
pub fn exceeds_limit(name: &Vec<char>) -> (b: bool)
    ensures
        b == (bytes_len(name@) > MAX_LEN),
{
    let mut used: usize = 0;
    let mut i: usize = 0;
    proof {
        assert(name@.take(0) =~= Seq::<char>::empty());
    }
    while i < name.len()
        invariant
            i <= name@.len(),
            used == bytes_len(name@.take(i as int)),
            used <= MAX_LEN,
        decreases name@.len() - i,
    {
        let c = name[i];
        let w = char_width_of(c);
        proof {
            lemma_bytes_len_take_succ(name@, i as int);
        }
        if used + w > MAX_LEN {
            proof {
                lemma_bytes_len_take_mono(name@, i + 1, name@.len() as int);
                assert(name@.take(name@.len() as int) =~= name@);
            }
            return true;
        }
        used = used + w;
        i += 1;
    }
    proof {
        assert(name@.take(name@.len() as int) =~= name@);
    }
    false
}

} // verus!
