//! Character-level predicates on strings: occurrence of one string inside
//! another, and the prefix test that tells absolute links apart.

use vstd::prelude::*;
use vstd::string::StrSliceExecFns;

verus! {

/// The characters of `pat` stand in `text` starting at position `at`.
pub open spec fn matches_at(text: Seq<char>, pat: Seq<char>, at: int) -> bool {
    &&& 0 <= at
    &&& at + pat.len() <= text.len()
    &&& forall|j: int| 0 <= j < pat.len() ==> text[at + j] == pat[j]
}

/// `pat` occurs somewhere in `text` as a contiguous run of characters.
pub open spec fn contains_seq(text: Seq<char>, pat: Seq<char>) -> bool {
    exists|at: int| matches_at(text, pat, at)
}

/// The first four characters of `s` read "http": the test by which a link is
/// taken to be absolute already and passed through unchanged.
pub open spec fn has_http_prefix(s: Seq<char>) -> bool {
    s.len() >= 4 && s[0] == 'h' && s[1] == 't' && s[2] == 't' && s[3] == 'p'
}

/// Compares the characters of `pat` with those of `text` from position `at` on.
pub fn check_match_at(text: &str, pat: &str, at: usize, text_len: usize, pat_len: usize) -> (r: bool)
    requires
        text_len == text@.len(),
        pat_len == pat@.len(),
        at + pat_len <= text_len,
    ensures
        r == matches_at(text@, pat@, at as int),
{
    let mut j: usize = 0;
    while j < pat_len
        invariant
            text_len == text@.len(),
            pat_len == pat@.len(),
            at + pat_len <= text_len,
            0 <= j <= pat_len,
            forall|k: int| 0 <= k < j ==> text@[at + k] == pat@[k],
        decreases pat_len - j,
    {
        if text.get_char(at + j) != pat.get_char(j) {
            return false;
        }
        j += 1;
    }
    true
}

/// Whether `s` begins with the four characters of "http".
pub fn is_absolute_link(s: &str) -> (r: bool)
    ensures
        r == has_http_prefix(s@),
{
    let n = s.unicode_len();
    if n < 4 {
        return false;
    }
    s.get_char(0) == 'h' && s.get_char(1) == 't' && s.get_char(2) == 't' && s.get_char(3) == 'p'
}

} // verus!
