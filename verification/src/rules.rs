//! Rule tables: character classifications and the Windows reserved
//! device-name test, each as a spec predicate with a verified executable
//! counterpart.

use vstd::prelude::*;

verus! {

/// A character that is illegal in file names on common filesystems:
/// one of `/ ? < > \ : * | "`.
pub open spec fn illegal_char(c: char) -> bool {
    c == '/' || c == '?' || c == '<' || c == '>' || c == '\\' || c == ':' || c == '*' || c == '|'
        || c == '"'
}

/// A control character: a code point in `0x00..=0x1F` or `0x80..=0x9F`.
pub open spec fn control_char(c: char) -> bool {
    (c as u32) <= 0x1f || (0x80 <= (c as u32) && (c as u32) <= 0x9f)
}

/// A character the filter removes: illegal or control.
pub open spec fn bad_char(c: char) -> bool {
    illegal_char(c) || control_char(c)
}

pub fn is_illegal_char(c: char) -> (b: bool)
    ensures
        b == illegal_char(c),
{
    c == '/' || c == '?' || c == '<' || c == '>' || c == '\\' || c == ':' || c == '*' || c == '|'
        || c == '"'
}

pub fn is_control_char(c: char) -> (b: bool)
    ensures
        b == control_char(c),
{
    let code = c as u32;
    code <= 0x1f || (code >= 0x80 && code <= 0x9f)
}

/// The code of a character after ASCII lowercasing: `A`..=`Z` map to
/// `a`..=`z`, every other character keeps its own code.
pub open spec fn lower_code(c: char) -> u32 {
    if 0x41 <= (c as u32) && (c as u32) <= 0x5a {
        ((c as u32) + 32) as u32
    } else {
        c as u32
    }
}

pub fn lower_code_of(c: char) -> (r: u32)
    ensures
        r == lower_code(c),
{
    let code = c as u32;
    if 0x41 <= code && code <= 0x5a {
        code + 32
    } else {
        code
    }
}

/// The given characters spell a legacy Windows device name, compared
/// ASCII-case-insensitively: `con`, `prn`, `aux`, `nul`, `com0`..=`com9`,
/// or `lpt0`..=`lpt9`.
pub open spec fn reserved_stem(s: Seq<char>) -> bool {
    ||| (s.len() == 3 && {
        let a = lower_code(s[0]);
        let b = lower_code(s[1]);
        let c = lower_code(s[2]);
        ||| (a == 'c' as u32 && b == 'o' as u32 && c == 'n' as u32)
        ||| (a == 'p' as u32 && b == 'r' as u32 && c == 'n' as u32)
        ||| (a == 'a' as u32 && b == 'u' as u32 && c == 'x' as u32)
        ||| (a == 'n' as u32 && b == 'u' as u32 && c == 'l' as u32)
    })
    ||| (s.len() == 4 && {
        let a = lower_code(s[0]);
        let b = lower_code(s[1]);
        let c = lower_code(s[2]);
        let d = lower_code(s[3]);
        &&& ((a == 'c' as u32 && b == 'o' as u32 && c == 'm' as u32) || (a == 'l' as u32 && b
            == 'p' as u32 && c == 't' as u32))
        &&& '0' as u32 <= d && d <= '9' as u32
    })
}

/// Whether the first `k` characters of `name` spell a reserved device name.
pub fn stem_is_reserved(name: &Vec<char>, k: usize) -> (b: bool)
    requires
        k <= name@.len(),
    ensures
        b == reserved_stem(name@.take(k as int)),
{
    if k == 3 {
        let a = lower_code_of(name[0]);
        let b = lower_code_of(name[1]);
        let c = lower_code_of(name[2]);
        (a == 'c' as u32 && b == 'o' as u32 && c == 'n' as u32) || (a == 'p' as u32 && b
            == 'r' as u32 && c == 'n' as u32) || (a == 'a' as u32 && b == 'u' as u32 && c
            == 'x' as u32) || (a == 'n' as u32 && b == 'u' as u32 && c == 'l' as u32)
    } else if k == 4 {
        let a = lower_code_of(name[0]);
        let b = lower_code_of(name[1]);
        let c = lower_code_of(name[2]);
        let d = lower_code_of(name[3]);
        ((a == 'c' as u32 && b == 'o' as u32 && c == 'm' as u32) || (a == 'l' as u32 && b
            == 'p' as u32 && c == 't' as u32)) && ('0' as u32 <= d && d <= '9' as u32)
    } else {
        false
    }
}

} // verus!
