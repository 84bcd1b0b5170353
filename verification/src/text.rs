//! Small text utilities: ASCII case folding and string comparison.
//!
//! Tag names in a document are ASCII; the case-folded dialect compares them
//! after mapping the letters `A`..`Z` to lower case, leaving every other
//! character alone.

use vstd::prelude::*;

verus! {

/// Map one ASCII upper-case letter to lower case; leave anything else alone.
pub open spec fn fold_char(c: char) -> char {
    if 'A' <= c && c <= 'Z' {
        ((c as u8) + 32) as char
    } else {
        c
    }
}

/// ASCII-lower-case image of a character sequence.
pub open spec fn fold_seq(s: Seq<char>) -> Seq<char> {
    Seq::new(s.len(), |i: int| fold_char(s[i]))
}

fn fold_char_x(c: char) -> (r: char)
    ensures
        r == fold_char(c),
{
    if 'A' <= c && c <= 'Z' {
        ((c as u8) + 32) as char
    } else {
        c
    }
}

/// Case-insensitive comparison: does `a`, folded to ASCII lower case,
/// read exactly as `b`?
pub fn eq_fold(a: &str, b: &str) -> (r: bool)
    ensures
        r == (fold_seq(a@) == b@),
{
    let n = a.unicode_len();
    if n != b.unicode_len() {
        proof {
            assert(fold_seq(a@).len() == a@.len());
        }
        return false;
    }
    let mut i: usize = 0;
    while i < n
        invariant
            0 <= i as int <= n,
            n == a@.len(),
            n == b@.len(),
            forall|k: int| 0 <= k < i as int ==> fold_char(a@[k]) == b@[k],
        decreases n - i,
    {
        let ca = fold_char_x(a.get_char(i));
        let cb = b.get_char(i);
        if ca != cb {
            proof {
                assert(fold_seq(a@)[i as int] != b@[i as int]);
            }
            return false;
        }
        i = i + 1;
    }
    proof {
        assert(fold_seq(a@) =~= b@);
    }
    true
}

/// Exact string comparison, with the result stated over the views.
pub fn str_eq(a: &str, b: &str) -> (r: bool)
    ensures
        r == (a@ == b@),
{
    let n = a.unicode_len();
    if n != b.unicode_len() {
        return false;
    }
    let mut i: usize = 0;
    while i < n
        invariant
            0 <= i as int <= n,
            n == a@.len(),
            n == b@.len(),
            forall|k: int| 0 <= k < i as int ==> a@[k] == b@[k],
        decreases n - i,
    {
        if a.get_char(i) != b.get_char(i) {
            return false;
        }
        i = i + 1;
    }
    proof {
        assert(a@ =~= b@);
    }
    true
}

} // verus!
