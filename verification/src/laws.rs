//! Laws relating the sanitizer and the validator.

use vstd::prelude::*;
use vstd::utf8::encode_utf8;
use vstd::utf8::encode_utf8_valid_utf8;
use vstd::utf8::valid_utf8;
use crate::filter::filtered;
use crate::filter::lemma_filtered_clean_id;
use crate::filter::lemma_filtered_empty_clean;
use crate::filter::lemma_filtered_empty_len;
use crate::filter::lemma_filtered_snoc;
use crate::reserved::all_dots;
use crate::reserved::windows_reserved;
use crate::rules::bad_char;
use crate::sanitize::sanitized;
use crate::sanitize::sanitized_core;
use crate::trailing::lemma_trimmed_len_bounds;
use crate::trailing::trail_char;
use crate::trailing::trim_trailing;
use crate::trailing::trimmed_len;
use crate::truncate::MAX_LEN;
use crate::truncate::bytes_len;
use crate::truncate::cut_len;
use crate::truncate::lemma_bytes_len_encoding;
use crate::truncate::lemma_cut_len_fits;
use crate::truncate::truncate_to;
use crate::validate::in_sanitized_form;

verus! {

/// With an empty replacement the filter deletes every illegal or control
/// character and keeps the rest, in order.
pub proof fn lemma_empty_replacement_deletes(s: Seq<char>)
    ensures
        filtered(s, Seq::empty()) == s.filter(|c: char| !bad_char(c)),
    decreases s.len(),
{
    let e = Seq::<char>::empty();
    let p = (|c: char| !bad_char(c));
    if s.len() == 0 {
        assert(filtered(s, e) =~= s.filter(p));
    } else {
        let t = s.drop_last();
        let c = s.last();
        lemma_empty_replacement_deletes(t);
        lemma_filtered_snoc(t, e, c);
        assert(t.push(c) =~= s);
        assert(s.filter(p) == (if p(c) {
            t.filter(p).push(c)
        } else {
            t.filter(p)
        })) by {
            reveal_with_fuel(Seq::filter, 2);
        }
        if bad_char(c) {
            assert(filtered(s, e) =~= t.filter(p));
        } else {
            assert(filtered(s, e) =~= t.filter(p).push(c));
        }
        assert(filtered(s, e) == s.filter(p));
    }
}

/// A text in sanitized form comes back from the sanitizer unchanged,
/// whatever the replacement.
pub proof fn lemma_sanitized_fixed(s: Seq<char>, windows: bool, truncate: bool, rep: Seq<char>)
    requires
        in_sanitized_form(s, windows, truncate),
    ensures
        sanitized(s, windows, truncate, rep) == s,
{
    if s.len() == 0 {
        assert(filtered(s, rep) =~= s);
        assert(trimmed_len(s) == 0);
        assert(bytes_len(s) == 0);
    } else {
        lemma_filtered_clean_id(s, rep);
        assert(!all_dots(s));
        if windows {
            assert(!trail_char(s.last()));
            assert(trimmed_len(s) == s.len());
            assert(trim_trailing(s, rep) == s);
            assert(!windows_reserved(s));
        }
        if truncate {
            assert(bytes_len(s) <= MAX_LEN);
        }
    }
}

/// A text the sanitizer returns unchanged under an empty replacement is in
/// sanitized form.
pub proof fn lemma_fixed_in_sanitized_form(s: Seq<char>, windows: bool, truncate: bool)
    requires
        sanitized(s, windows, truncate, Seq::empty()) == s,
    ensures
        in_sanitized_form(s, windows, truncate),
{
    let e = Seq::<char>::empty();
    if s.len() > 0 {
        let f = filtered(s, e);
        let g = if all_dots(f) {
            e
        } else {
            f
        };
        let t = if windows {
            trim_trailing(g, e)
        } else {
            g
        };
        let h = if windows && windows_reserved(t) {
            e
        } else {
            t
        };
        let y = sanitized(s, windows, truncate, e);
        assert(h == sanitized_core(s, windows, e));
        lemma_filtered_empty_len(s);
        lemma_trimmed_len_bounds(g);
        if trimmed_len(g) != g.len() && trimmed_len(g) != 0 {
            assert((g.take(trimmed_len(g)) + e).len() == trimmed_len(g));
        }
        assert(t.len() <= g.len());
        lemma_cut_len_fits(h, MAX_LEN as int);
        assert(y.len() <= h.len());
        assert(y.len() == s.len());
        assert(f.len() == s.len());
        assert(f == s);
        assert(forall|i: int| 0 <= i < s.len() ==> !bad_char(s[i]));
        assert(!all_dots(f)) by {
            if all_dots(f) {
                assert(g.len() == 0 && f.len() > 0);
            }
        }
        assert(g == s);
        if windows {
            assert(trimmed_len(g) == g.len()) by {
                if trimmed_len(g) != g.len() {
                    assert(t.len() < g.len());
                }
            }
            assert(t == g);
            assert(!trail_char(s.last())) by {
                if trail_char(g.last()) {
                    lemma_trimmed_len_bounds(g.drop_last());
                    assert(trimmed_len(g) == trimmed_len(g.drop_last()));
                    assert(trimmed_len(g) < g.len());
                }
            }
            assert(!windows_reserved(t)) by {
                if windows_reserved(t) {
                    assert(h.len() == 0 && t.len() > 0);
                }
            }
        }
        assert(h == s);
        if truncate {
            assert(bytes_len(s) <= MAX_LEN) by {
                if bytes_len(h) > MAX_LEN {
                    assert(y == h.take(cut_len(h, MAX_LEN as int)));
                    assert(cut_len(h, MAX_LEN as int) == h.len());
                    assert(h.take(h.len() as int) =~= h);
                    assert(bytes_len(h) <= MAX_LEN);
                }
            }
        }
    }
}

/// A text is in sanitized form exactly when sanitizing it with an empty
/// replacement returns it unchanged.
pub proof fn lemma_sanitized_iff_fixed(s: Seq<char>, windows: bool, truncate: bool)
    ensures
        in_sanitized_form(s, windows, truncate) <==> sanitized(s, windows, truncate, Seq::empty())
            == s,
{
    if in_sanitized_form(s, windows, truncate) {
        lemma_sanitized_fixed(s, windows, truncate, Seq::empty());
    }
    if sanitized(s, windows, truncate, Seq::empty()) == s {
        lemma_fixed_in_sanitized_form(s, windows, truncate);
    }
}

/// Without truncation, sanitizing with an empty replacement always lands in
/// sanitized form.
pub proof fn lemma_sanitize_output_sanitized(s: Seq<char>, windows: bool)
    ensures
        in_sanitized_form(sanitized(s, windows, false, Seq::empty()), windows, false),
{
    let e = Seq::<char>::empty();
    let f = filtered(s, e);
    lemma_filtered_empty_clean(s);
    let g = if all_dots(f) {
        e
    } else {
        f
    };
    assert(forall|i: int| 0 <= i < g.len() ==> !bad_char(g[i]));
    if windows {
        let t = trim_trailing(g, e);
        lemma_trimmed_len_bounds(g);
        let tl = trimmed_len(g);
        if tl == g.len() {
            assert(t == g);
        } else if tl == 0 {
            assert(t == e);
        } else {
            assert(t =~= g.take(tl));
        }
        assert(forall|i: int| 0 <= i < t.len() ==> t[i] == g[i]);
        if t.len() > 0 {
            assert(t.last() == g[t.len() - 1]);
            assert(!trail_char(t.last())) by {
                if tl == g.len() {
                    if trail_char(g.last()) {
                        lemma_trimmed_len_bounds(g.drop_last());
                        assert(trimmed_len(g) < g.len());
                    }
                }
            }
            assert(!all_dots(t)) by {
                if all_dots(t) {
                    assert(t.last() == '.');
                }
            }
        }
        let h = if windows_reserved(t) {
            e
        } else {
            t
        };
        assert(h == sanitized(s, windows, false, e));
        if h.len() > 0 {
            assert(h == t);
            assert(!windows_reserved(h));
        }
    } else {
        assert(g == sanitized(s, windows, false, e));
        if g.len() > 0 {
            assert(g == f && !all_dots(f));
        }
    }
}

/// Sanitizing twice with an empty replacement is the same as sanitizing
/// once, provided truncation does not cut (the untruncated result already
/// fits in the byte limit, as it always does with truncation off).
pub proof fn lemma_sanitize_idempotent(s: Seq<char>, windows: bool, truncate: bool)
    requires
        truncate ==> bytes_len(sanitized_core(s, windows, Seq::empty())) <= MAX_LEN,
    ensures
        sanitized(sanitized(s, windows, truncate, Seq::empty()), windows, truncate, Seq::empty())
            == sanitized(s, windows, truncate, Seq::empty()),
{
    let e = Seq::<char>::empty();
    let h = sanitized_core(s, windows, e);
    let y = sanitized(s, windows, truncate, e);
    assert(y == h);
    lemma_sanitize_output_sanitized(s, windows);
    assert(in_sanitized_form(y, windows, false));
    assert(in_sanitized_form(y, windows, truncate));
    lemma_sanitized_fixed(y, windows, truncate, e);
}

/// With truncation enabled the output's UTF-8 encoding fits in 255 bytes
/// and is a valid, complete code-point sequence: a whole-character prefix
/// of the untruncated result.
pub proof fn lemma_truncation_boundary(s: Seq<char>, windows: bool, rep: Seq<char>)
    ensures
        bytes_len(sanitized(s, windows, true, rep)) <= MAX_LEN,
        encode_utf8(sanitized(s, windows, true, rep)).len() <= MAX_LEN,
        valid_utf8(encode_utf8(sanitized(s, windows, true, rep))),
        sanitized(s, windows, true, rep) == sanitized_core(s, windows, rep).take(
            sanitized(s, windows, true, rep).len() as int,
        ),
{
    let h = sanitized_core(s, windows, rep);
    let y = sanitized(s, windows, true, rep);
    lemma_cut_len_fits(h, MAX_LEN as int);
    if bytes_len(h) <= MAX_LEN {
        assert(y == h);
        assert(h.take(h.len() as int) =~= h);
    }
    lemma_bytes_len_encoding(y);
    encode_utf8_valid_utf8(y);
}

} // verus!
