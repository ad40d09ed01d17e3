//! The safe character set that identifiers and API keys are restricted to:
//! ASCII letters, digits, and `-`.

use vstd::prelude::*;

verus! {

/// A character of the safe alphabet: a letter, a digit, or `-`.
pub open spec fn is_safe_char(c: char) -> bool {
    ('0' <= c && c <= '9') || ('A' <= c && c <= 'Z') || ('a' <= c && c <= 'z') || c == '-'
}

/// Every character of the sequence lies in the safe alphabet.
pub open spec fn all_safe_chars(s: Seq<char>) -> bool {
    forall|i: int| 0 <= i < s.len() ==> is_safe_char(s[i])
}

/// A character that may appear in an identifier.
pub fn is_valid_uid(uid: char) -> (r: bool)
    ensures
        r == is_safe_char(uid),
{
    ('0' <= uid && uid <= '9') || ('A' <= uid && uid <= 'Z') || ('a' <= uid && uid <= 'z') || uid
        == '-'
}

/// A character that may appear in an API key.
pub fn is_valid_key(key: char) -> (r: bool)
    ensures
        r == is_safe_char(key),
{
    is_valid_uid(key)
}

/// Whether every character of `s` may appear in an identifier.
pub fn all_valid_uid(s: &str) -> (r: bool)
    ensures
        r == all_safe_chars(s@),
{
    let n = s.unicode_len();
    let mut i: usize = 0;
    while i < n
        invariant
            n == s@.len(),
            i <= n,
            forall|j: int| 0 <= j < i ==> is_safe_char(s@[j]),
        decreases n - i,
    {
        if !is_valid_uid(s.get_char(i)) {
            return false;
        }
        i += 1;
    }
    true
}

/// Whether every character of `s` may appear in an API key.
pub fn all_valid_key(s: &str) -> (r: bool)
    ensures
        r == all_safe_chars(s@),
{
    all_valid_uid(s)
}

} // verus!
