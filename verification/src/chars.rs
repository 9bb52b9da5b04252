//! Character classes used to recognise Envlang symbols
//!
//! ASCII digits are stated here in full. The Unicode properties `Alphabetic`, `Alphanumeric`
//! and `White_Space` are those of the standard library's `char` methods; they are named here
//! and every function that uses them is stated over those names.
use vstd::prelude::*;

verus! {

/// The Unicode class that `char::is_alphabetic` decides.
pub uninterp spec fn alphabetic(c: char) -> bool;

/// The Unicode class that `char::is_alphanumeric` decides.
pub uninterp spec fn alphanumeric(c: char) -> bool;

/// The Unicode class that `char::is_whitespace` decides.
pub uninterp spec fn whitespace(c: char) -> bool;

/// `char::is_ascii_digit`: the ten characters `'0'` to `'9'`.
pub open spec fn ascii_digit(c: char) -> bool {
    '0' <= c && c <= '9'
}

/// Calls `char::is_alphabetic`, which decides the Unicode `Alphabetic` property of `c`;
/// the result is named `alphabetic(c)` and nothing more is claimed of it.
#[verifier::external_body]
fn char_is_alphabetic(c: char) -> (r: bool)
    ensures
        r == alphabetic(c),
{
    c.is_alphabetic()
}

/// Calls `char::is_alphanumeric`, which holds of characters that are alphabetic or numeric.
/// The result is named `alphanumeric(c)`; the one further fact claimed is the one the
/// documentation gives, that every alphabetic character is alphanumeric.
#[verifier::external_body]
fn char_is_alphanumeric(c: char) -> (r: bool)
    ensures
        r == alphanumeric(c),
        alphabetic(c) ==> r,
{
    c.is_alphanumeric()
}

/// Calls `char::is_whitespace`, which decides the Unicode `White_Space` property of `c`;
/// the result is named `whitespace(c)` and nothing more is claimed of it.
#[verifier::external_body]
pub(crate) fn is_whitespace_char(c: char) -> (r: bool)
    ensures
        r == whitespace(c),
{
    c.is_whitespace()
}

/// Every character of `s` is an ASCII digit (true of the empty text).
pub open spec fn all_ascii_digits(s: Seq<char>) -> bool {
    forall|i: int| 0 <= i < s.len() ==> ascii_digit(#[trigger] s[i])
}

/// Every character of `s` is alphabetic (true of the empty text).
pub open spec fn all_alphabetic(s: Seq<char>) -> bool {
    forall|i: int| 0 <= i < s.len() ==> alphabetic(#[trigger] s[i])
}

/// Every character of `s` is alphanumeric (true of the empty text).
pub open spec fn all_alphanumeric(s: Seq<char>) -> bool {
    forall|i: int| 0 <= i < s.len() ==> alphanumeric(#[trigger] s[i])
}

/// Every character of `s` is whitespace (true of the empty text).
pub open spec fn all_whitespace(s: Seq<char>) -> bool {
    forall|i: int| 0 <= i < s.len() ==> whitespace(#[trigger] s[i])
}

pub fn is_all_ascii_digits(s: &str) -> (r: bool)
    ensures
        r == all_ascii_digits(s@),
{
    let n = s.unicode_len();
    let mut i: usize = 0;
    while i < n
        invariant
            n == s@.len(),
            i <= n,
            forall|k: int| 0 <= k < i ==> ascii_digit(#[trigger] s@[k]),
        decreases n - i,
    {
        let c = s.get_char(i);
        if !('0' <= c && c <= '9') {
            return false;
        }
        i += 1;
    }
    true
}

pub fn is_all_alphabetic(s: &str) -> (r: bool)
    ensures
        r == all_alphabetic(s@),
{
    let n = s.unicode_len();
    let mut i: usize = 0;
    while i < n
        invariant
            n == s@.len(),
            i <= n,
            forall|k: int| 0 <= k < i ==> alphabetic(#[trigger] s@[k]),
        decreases n - i,
    {
        if !char_is_alphabetic(s.get_char(i)) {
            return false;
        }
        i += 1;
    }
    true
}

pub fn is_all_alphanumeric(s: &str) -> (r: bool)
    ensures
        r == all_alphanumeric(s@),
{
    let n = s.unicode_len();
    let mut i: usize = 0;
    while i < n
        invariant
            n == s@.len(),
            i <= n,
            forall|k: int| 0 <= k < i ==> alphanumeric(#[trigger] s@[k]),
        decreases n - i,
    {
        if !char_is_alphanumeric(s.get_char(i)) {
            return false;
        }
        i += 1;
    }
    true
}

pub fn is_all_whitespace(s: &str) -> (r: bool)
    ensures
        r == all_whitespace(s@),
{
    let n = s.unicode_len();
    let mut i: usize = 0;
    while i < n
        invariant
            n == s@.len(),
            i <= n,
            forall|k: int| 0 <= k < i ==> whitespace(#[trigger] s@[k]),
        decreases n - i,
    {
        if !is_whitespace_char(s.get_char(i)) {
            return false;
        }
        i += 1;
    }
    true
}

/// Whether two texts hold the same characters.
pub fn same_text(s: &str, t: &str) -> (r: bool)
    ensures
        r == (s@ == t@),
{
    let n = s.unicode_len();
    let m = t.unicode_len();
    if n != m {
        return false;
    }
    let mut i: usize = 0;
    while i < n
        invariant
            n == s@.len(),
            m == t@.len(),
            n == m,
            i <= n,
            forall|k: int| 0 <= k < i ==> s@[k] == t@[k],
        decreases n - i,
    {
        if s.get_char(i) != t.get_char(i) {
            return false;
        }
        i += 1;
    }
    assert(s@ =~= t@);
    true
}

/// Whether `s` consists of the single character `c`.
pub fn is_single(s: &str, c: char) -> (r: bool)
    ensures
        r == (s@ == seq![c]),
{
    if s.unicode_len() != 1 {
        return false;
    }
    let r = s.get_char(0) == c;
    if r {
        assert(s@ =~= seq![c]);
    }
    r
}

} // verus!
