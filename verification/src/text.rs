//! Character-level helpers shared by field validation and parsing: blankness
//! (empty or all ASCII whitespace) and ASCII-case-folded comparison.

use vstd::prelude::*;
use vstd::string::StrSliceExecFns;

verus! {

/// An ASCII whitespace character: the blank set recognised here.
pub open spec fn spec_is_space(c: char) -> bool {
    c == ' ' || c == '\t' || c == '\n' || c == '\r'
}

/// Text that is empty or made of whitespace alone.
pub open spec fn spec_is_blank(s: Seq<char>) -> bool {
    forall|i: int| 0 <= i < s.len() ==> spec_is_space(s[i])
}

/// An ASCII upper-case letter folded to lower case; every other character
/// kept as it is.
pub open spec fn spec_fold_char(c: char) -> char {
    if 'A' <= c && c <= 'Z' {
        ((c as u32) + 32) as char
    } else {
        c
    }
}

/// Whether `s`, after ASCII case folding, equals `t` as given.
pub open spec fn spec_eq_folded(s: Seq<char>, t: Seq<char>) -> bool {
    s.len() == t.len() && (forall|i: int| 0 <= i < s.len() ==> spec_fold_char(s[i]) == t[i])
}

/// Relies on std's `String::push`: it appends the given character to the
/// end of the string.
#[verifier::external_body]
pub(crate) fn push_char(s: &mut String, c: char)
    ensures
        final(s)@ == old(s)@.push(c),
{
    s.push(c)
}

/// Whether `s` is empty or whitespace alone.
pub fn is_blank(s: &str) -> (r: bool)
    ensures
        r == spec_is_blank(s@),
{
    let len = s.unicode_len();
    let mut i: usize = 0;
    while i < len
        invariant
            i <= len,
            len == s@.len(),
            forall|j: int| 0 <= j < i ==> spec_is_space(s@[j]),
        decreases len - i,
    {
        let c = s.get_char(i);
        if !(c == ' ' || c == '\t' || c == '\n' || c == '\r') {
            return false;
        }
        i = i + 1;
    }
    true
}

/// Whether `s`, after ASCII case folding, equals `t` as given.
pub fn eq_folded(s: &str, t: &str) -> (r: bool)
    ensures
        r == spec_eq_folded(s@, t@),
{
    let n = s.unicode_len();
    if n != t.unicode_len() {
        return false;
    }
    let mut i: usize = 0;
    while i < n
        invariant
            i <= n,
            n == s@.len(),
            n == t@.len(),
            forall|j: int| 0 <= j < i ==> spec_fold_char(s@[j]) == t@[j],
        decreases n - i,
    {
        let cu = s.get_char(i) as u32;
        let tu = t.get_char(i) as u32;
        let fu: u32 = if 65 <= cu && cu <= 90 {
            cu + 32
        } else {
            cu
        };
        if fu != tu {
            return false;
        }
        i = i + 1;
    }
    true
}

} // verus!
