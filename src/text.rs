//! Character-level helpers on strings.
use vstd::prelude::*;

verus! {

/// A long token starts with two dashes.
pub open spec fn is_long_token(t: Seq<char>) -> bool {
    t.len() >= 2 && t[0] == '-' && t[1] == '-'
}

/// A short token starts with one dash and is not a long token.
pub open spec fn is_short_token(t: Seq<char>) -> bool {
    t.len() >= 1 && t[0] == '-' && !is_long_token(t)
}

/// Compares two strings character by character.
pub fn same_text(a: &str, b: &str) -> (r: bool)
    ensures
        r == (a@ == b@),
{
    let n = a.unicode_len();
    if n != b.unicode_len() {
        return false;
    }
    let mut i: usize = 0;
    while i < n
        invariant
            n == a@.len(),
            n == b@.len(),
            i <= n,
            forall|j: int| 0 <= j < i ==> a@[j] == b@[j],
        decreases n - i,
    {
        if a.get_char(i) != b.get_char(i) {
            return false;
        }
        i = i + 1;
    }
    assert(a@ =~= b@);
    true
}

/// Whether `t` starts with two dashes.
pub fn starts_long(t: &str) -> (r: bool)
    ensures
        r == is_long_token(t@),
{
    t.unicode_len() >= 2 && t.get_char(0) == '-' && t.get_char(1) == '-'
}

/// Whether `t` starts with one dash but not two.
pub fn starts_short(t: &str) -> (r: bool)
    ensures
        r == is_short_token(t@),
{
    t.unicode_len() >= 1 && t.get_char(0) == '-' && !starts_long(t)
}

} // verus!
