//! The email scanner: which email-shaped substrings a page holds. Writing
//! them to the per-domain artifact is the driver's side.

use vstd::prelude::*;

verus! {

/// The email-shaped substrings of `html`, in order of appearance, as the
/// fixed pattern finds them.
pub uninterp spec fn emails_of(html: Seq<char>) -> Seq<Seq<char>>;

/// Relies on regex's find_iter: every non-overlapping match of the fixed
/// email pattern, left to right — a deterministic function of the text.
/// The pattern is a constant and valid, so compiling it cannot fail.
#[verifier::external_body]
fn email_matches(html: &str) -> (r: Vec<String>)
    ensures
        r.deep_view() == emails_of(html@),
{
    let email_regex = regex::Regex::new(r"[a-zA-Z0-9._%+-]+@[a-zA-Z0-9.-]+\.[a-zA-Z]{2,}").unwrap();
    email_regex.find_iter(html).map(|m| m.as_str().to_string()).collect()
}

/// Every email-shaped substring of `html`, in order of appearance and with
/// repeats kept, for the caller to record.
pub fn find_emails(html: &str) -> (r: Vec<String>)
    ensures
        r.deep_view() == emails_of(html@),
{
    email_matches(html)
}

} // verus!
