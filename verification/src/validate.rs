//! The validator: reports whether a string is already in sanitized form,
//! without rewriting it.

use vstd::prelude::*;
use crate::chars::str_to_chars;
use crate::reserved::all_dots;
use crate::reserved::is_reserved;
use crate::reserved::is_windows_reserved;
use crate::reserved::windows_reserved;
use crate::rules::bad_char;
use crate::rules::is_control_char;
use crate::rules::is_illegal_char;
use crate::trailing::has_windows_trailing;
use crate::trailing::trail_char;
use crate::truncate::MAX_LEN;
use crate::truncate::bytes_len;
use crate::truncate::exceeds_limit;

verus! {

/// Configuration for [`is_sanitized_with_options`]: the `windows` and
/// `truncate` switches of [`crate::Options`], without a replacement, since
/// validation never rewrites.
#[derive(Clone, Copy)]
pub struct OptionsForCheck {
    pub windows: bool,
    pub truncate: bool,
}

impl Default for OptionsForCheck {
    /// Windows rules off, truncation on.
    fn default() -> (r: Self)
        ensures
            r.windows == false,
            r.truncate == true,
    {
        OptionsForCheck { windows: false, truncate: true }
    }
}

/// A text in sanitized form: empty, or free of illegal and control
/// characters, not all dots, within the byte limit when `truncate` is set,
/// and, when `windows` is set, neither a reserved device name nor ending
/// in a dot or a space.
pub open spec fn in_sanitized_form(s: Seq<char>, windows: bool, truncate: bool) -> bool {
    s.len() == 0 || {
        &&& !(truncate && bytes_len(s) > MAX_LEN)
        &&& !all_dots(s)
        &&& (windows ==> !windows_reserved(s))
        &&& (windows ==> !trail_char(s.last()))
        &&& forall|i: int| 0 <= i < s.len() ==> !bad_char(s[i])
    }
}

/// Whether a buffer of characters is in sanitized form.
pub fn is_sanitized_chars(name: &Vec<char>, windows: bool, truncate: bool) -> (b: bool)
    ensures
        b == in_sanitized_form(name@, windows, truncate),
{
    if name.len() == 0 {
        return true;
    }
    if truncate && exceeds_limit(name) {
        return false;
    }
    if is_reserved(name) {
        return false;
    }
    if windows {
        if is_windows_reserved(name) {
            return false;
        }
        if has_windows_trailing(name) {
            return false;
        }
    }
    let mut i: usize = 0;
    while i < name.len()
        invariant
            i <= name@.len(),
            forall|j: int| 0 <= j < i ==> !bad_char(name@[j]),
        decreases name@.len() - i,
    {
        let c = name[i];
        if is_illegal_char(c) || is_control_char(c) {
            return false;
        }
        i += 1;
    }
    true
}

/// Whether `name` is already in sanitized form under the given check
/// options.  The result is exactly the [`in_sanitized_form`] predicate on
/// the input.
pub fn is_sanitized_with_options(name: &str, options: OptionsForCheck) -> (b: bool)
    ensures
        b == in_sanitized_form(name@, options.windows, options.truncate),
{
    let chars = str_to_chars(name);
    is_sanitized_chars(&chars, options.windows, options.truncate)
}

/// Whether `name` is already in sanitized form under the default check
/// options: Windows rules off, truncation on.
pub fn is_sanitized(name: &str) -> (b: bool)
    ensures
        b == in_sanitized_form(name@, false, true),
{
    is_sanitized_with_options(name, OptionsForCheck::default())
}

} // verus!
