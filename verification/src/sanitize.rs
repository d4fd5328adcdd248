//! The sanitizer: character filter, reserved-name collapse, trailing
//! trimming, and truncation, in that order.

use vstd::prelude::*;
use vstd::utf8::encode_utf8;
use crate::chars::chars_to_string;
use crate::laws::lemma_truncation_boundary;
use crate::chars::copy_chars;
use crate::chars::str_to_chars;
use crate::filter::filtered;
use crate::filter::replace_illegal_or_control_char;
use crate::reserved::all_dots;
use crate::reserved::is_reserved;
use crate::reserved::is_windows_reserved;
use crate::reserved::windows_reserved;
use crate::trailing::replace_windows_trailing;
use crate::trailing::trim_trailing;
use crate::truncate::MAX_LEN;
use crate::truncate::truncate_chars;
use crate::truncate::truncate_to;

verus! {

/// Configuration for [`sanitize_with_options`]: `windows` enables the
/// device-name and trailing-character rules, `truncate` enables the
/// 255-byte length cap, and `replacement` is the text substituted for each
/// removed character or for an entirely reserved name.
#[derive(Clone, Copy)]
pub struct Options<'a> {
    pub windows: bool,
    pub truncate: bool,
    pub replacement: &'a str,
}

impl<'a> Default for Options<'a> {
    /// Windows rules off, truncation on, empty replacement.
    fn default() -> (r: Self)
        ensures
            r.windows == false,
            r.truncate == true,
            r.replacement@ == Seq::<char>::empty(),
    {
        proof {
            reveal_strlit("");
        }
        Options { windows: false, truncate: true, replacement: "" }
    }
}

/// The sanitized text before truncation: the filtered text, collapsed to
/// the replacement when it is all dots, and, under the Windows rules,
/// trailing-trimmed and collapsed to the replacement when its stem is a
/// reserved device name.
pub open spec fn sanitized_core(s: Seq<char>, windows: bool, rep: Seq<char>) -> Seq<char> {
    let f = filtered(s, rep);
    let g = if all_dots(f) {
        rep
    } else {
        f
    };
    if windows {
        let t = trim_trailing(g, rep);
        if windows_reserved(t) {
            rep
        } else {
            t
        }
    } else {
        g
    }
}

/// The sanitized text: [`sanitized_core`], truncated to 255 bytes on a
/// code-point boundary when `truncate` is set.
pub open spec fn sanitized(s: Seq<char>, windows: bool, truncate: bool, rep: Seq<char>) -> Seq<
    char,
> {
    let h = sanitized_core(s, windows, rep);
    if truncate {
        truncate_to(h, MAX_LEN as int)
    } else {
        h
    }
}

/// Sanitizes a buffer of characters.
pub fn sanitize_chars(name: &Vec<char>, windows: bool, truncate: bool, replacement: &Vec<char>) -> (
    r: Vec<char>)
    ensures
        r@ == sanitized(name@, windows, truncate, replacement@),
{
    let mut out = replace_illegal_or_control_char(name, replacement);
    if is_reserved(&out) {
        out = copy_chars(replacement);
    }
    if windows {
        out = replace_windows_trailing(&out, replacement);
        if is_windows_reserved(&out) {
            out = copy_chars(replacement);
        }
    }
    if truncate {
        out = truncate_chars(&out);
    }
    out
}

/// Sanitizes `name` under the given options.  The result is exactly the
/// text the [`sanitized`] model assigns to the input; with truncation on,
/// its UTF-8 encoding fits in 255 bytes.
pub fn sanitize_with_options(name: &str, options: Options<'_>) -> (r: String)
    ensures
        r@ == sanitized(name@, options.windows, options.truncate, options.replacement@),
        options.truncate ==> encode_utf8(r@).len() <= MAX_LEN,
{
    let name_chars = str_to_chars(name);
    let rep_chars = str_to_chars(options.replacement);
    let out = sanitize_chars(&name_chars, options.windows, options.truncate, &rep_chars);
    proof {
        if options.truncate {
            lemma_truncation_boundary(name@, options.windows, options.replacement@);
        }
    }
    chars_to_string(&out)
}

/// Sanitizes `name` under the default options: Windows rules off,
/// truncation on, empty replacement.
pub fn sanitize(name: &str) -> (r: String)
    ensures
        r@ == sanitized(name@, false, true, Seq::<char>::empty()),
        encode_utf8(r@).len() <= MAX_LEN,
{
    sanitize_with_options(name, Options::default())
}

} // verus!
