//! The content matcher: a case-sensitive substring test that decides whether
//! a page's links are followed in the gated breadth-first mode.

use vstd::prelude::*;
use vstd::string::StrSliceExecFns;
use crate::text::{check_match_at, contains_seq, matches_at};

verus! {

/// Whether `content` contains `target_phrase` as-is: no normalization, no
/// patterns, plain case-sensitive containment. A naive scan over every
/// start position.
pub fn should_scrape_content(content: &str, target_phrase: &str) -> (r: bool)
    ensures
        r == contains_seq(content@, target_phrase@),
{
    let text_len = content.unicode_len();
    let pat_len = target_phrase.unicode_len();
    if pat_len > text_len {
        assert(forall|at: int| !matches_at(content@, target_phrase@, at));
        return false;
    }
    let mut at: usize = 0;
    while at <= text_len - pat_len
        invariant
            text_len == content@.len(),
            pat_len == target_phrase@.len(),
            pat_len <= text_len,
            0 <= at <= text_len - pat_len + 1,
            forall|k: int| 0 <= k < at ==> !matches_at(content@, target_phrase@, k),
        decreases text_len - pat_len - at + 1,
    {
        if check_match_at(content, target_phrase, at, text_len, pat_len) {
            return true;
        }
        at += 1;
    }
    assert forall|k: int| !matches_at(content@, target_phrase@, k) by {
        if 0 <= k < at {
        } else if k >= at {
            assert(k + target_phrase@.len() > content@.len());
        }
    }
    false
}

/// The markers by which a page is flagged as showing an error dump: an
/// exception name or a stack trace.
pub open spec fn spec_error_signature(html: Seq<char>) -> bool {
    contains_seq(html, "Exception"@) || contains_seq(html, "Stack trace"@)
}

/// Whether `html` looks like an error page worth reporting.
pub fn has_error_signature(html: &str) -> (r: bool)
    ensures
        r == spec_error_signature(html@),
{
    should_scrape_content(html, "Exception") || should_scrape_content(html, "Stack trace")
}

} // verus!
