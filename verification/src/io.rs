//! The checks that the interpreter makes on the `.envl` files it reads.
//!
//! Reading the file itself is left to the program that runs the interpreter.
use vstd::prelude::*;

verus! {

/// The text `s` ends with `suffix`.
pub open spec fn ends_with(s: Seq<char>, suffix: Seq<char>) -> bool {
    s.len() >= suffix.len() && s.subrange(s.len() - suffix.len(), s.len() as int) == suffix
}

/// Whether `path` names an Envlang source file, that is, ends with the `.envl` extension.
///
/// A file is only read when this holds; otherwise reading fails with an invalid-input error.
pub fn has_envl_extension(path: &str) -> (r: bool)
    ensures
        r == ends_with(path@, ".envl"@),
{
    let extension = ".envl";
    let n = path.unicode_len();
    let m = extension.unicode_len();
    if n < m {
        return false;
    }
    let start = n - m;
    let mut i: usize = 0;
    while i < m
        invariant
            n == path@.len(),
            m == extension@.len(),
            extension@ == ".envl"@,
            start == n - m,
            i <= m,
            forall|k: int| 0 <= k < i ==> path@[start + k] == extension@[k],
        decreases m - i,
    {
        if path.get_char(start + i) != extension.get_char(i) {
            assert(path@.subrange(start as int, n as int)[i as int] != extension@[i as int]);
            return false;
        }
        i += 1;
    }
    assert(path@.subrange(start as int, n as int) =~= extension@);
    true
}

} // verus!
