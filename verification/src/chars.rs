//! Conversions between strings and character buffers, and small verified
//! helpers for building character buffers.

use vstd::prelude::*;
use vstd::string::StrSliceExecFns;

verus! {

/// The characters of `s`, in order.
pub fn str_to_chars(s: &str) -> (v: Vec<char>)
    ensures
        v@ == s@,
{
    let n = s.unicode_len();
    let mut v: Vec<char> = Vec::new();
    let mut i: usize = 0;
    proof {
        assert(v@ =~= s@.take(0));
    }
    while i < n
        invariant
            n == s@.len(),
            i <= n,
            v@ == s@.take(i as int),
        decreases n - i,
    {
        let c = s.get_char(i);
        v.push(c);
        proof {
            assert(s@.take(i as int).push(c) =~= s@.take(i + 1));
        }
        i += 1;
    }
    proof {
        assert(s@.take(n as int) =~= s@);
    }
    v
}

/// Relies on `String`'s `FromIterator<char>` implementation (through
/// `Iterator::collect`): the collected string consists of exactly the
/// iterated characters, in order.
#[verifier::external_body]
pub(crate) fn chars_to_string(v: &Vec<char>) -> (s: String)
    ensures
        s@ == v@,
{
    v.iter().collect()
}

/// A fresh copy of the buffer.
pub fn copy_chars(v: &Vec<char>) -> (r: Vec<char>)
    ensures
        r@ == v@,
{
    copy_prefix(v, v.len())
}

/// A fresh copy of the first `end` characters of the buffer.
pub fn copy_prefix(v: &Vec<char>, end: usize) -> (r: Vec<char>)
    requires
        end <= v@.len(),
    ensures
        r@ == v@.take(end as int),
{
    let mut r: Vec<char> = Vec::new();
    let mut i: usize = 0;
    proof {
        assert(r@ =~= v@.take(0));
    }
    while i < end
        invariant
            end <= v@.len(),
            i <= end,
            r@ == v@.take(i as int),
        decreases end - i,
    {
        let c = v[i];
        r.push(c);
        proof {
            assert(v@.take(i as int).push(c) =~= v@.take(i + 1));
        }
        i += 1;
    }
    r
}

/// Appends all of `add` to `r`.
pub fn push_all(r: &mut Vec<char>, add: &Vec<char>)
    ensures
        final(r)@ == old(r)@ + add@,
{
    let mut i: usize = 0;
    proof {
        assert(r@ =~= old(r)@ + add@.take(0));
    }
    while i < add.len()
        invariant
            i <= add@.len(),
            r@ == old(r)@ + add@.take(i as int),
        decreases add@.len() - i,
    {
        let c = add[i];
        r.push(c);
        proof {
            assert((old(r)@ + add@.take(i as int)).push(c) =~= old(r)@ + add@.take(i + 1));
        }
        i += 1;
    }
    proof {
        assert(add@.take(add@.len() as int) =~= add@);
    }
}

} // verus!
