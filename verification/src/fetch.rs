//! Classification of one page fetch, and the client-identifying header.
//! The HTTP request itself is made by the driver outside the library; what
//! came back is handed in as a `FetchOutcome`.

use vstd::prelude::*;

verus! {

/// What one HTTP GET produced: a status line with a decoded body, a
/// transport failure, or a failure to decode the body.
pub enum FetchOutcome {
    Success { status: u16, body: String },
    NetworkError,
    BodyReadError,
}

/// A status code in the 2xx range counts as success.
pub open spec fn spec_status_success(status: u16) -> bool {
    200 <= status < 300
}

pub fn status_is_success(status: u16) -> (r: bool)
    ensures
        r == spec_status_success(status),
{
    200 <= status && status < 300
}

/// The fetch produced a body under a success status.
pub open spec fn fetched_ok(outcome: FetchOutcome) -> bool {
    match outcome {
        FetchOutcome::Success { status, body } => spec_status_success(status),
        FetchOutcome::NetworkError => false,
        FetchOutcome::BodyReadError => false,
    }
}

/// The body the fetch produced; empty for a failed fetch.
pub open spec fn outcome_body(outcome: FetchOutcome) -> Seq<char> {
    match outcome {
        FetchOutcome::Success { status, body } => body@,
        FetchOutcome::NetworkError => Seq::empty(),
        FetchOutcome::BodyReadError => Seq::empty(),
    }
}

/// Relies on rand::random: draws a value; nothing is promised of it.
pub assume_specification<T>[ rand::random::<T> ]() -> (r: T)
    where
        rand::distributions::Standard: rand::distributions::Distribution<T>,
;

/// The pool of client-identifying header values that requests draw from.
pub open spec fn is_known_user_agent(s: Seq<char>) -> bool {
    ||| s == "Mozilla/5.0 (Windows NT 10.0; Win64; x64)..."@
    ||| s == "Mozilla/5.0 (Macintosh; Intel Mac OS X 10_15_7)..."@
    ||| s == "Mozilla/5.0 (iPhone; CPU iPhone OS 14_6 like Mac OS X)..."@
}

/// Picks one of the known user-agent strings. Which one depends on a random
/// draw, so only membership in the pool is promised.
pub fn random_user_agent() -> (r: String)
    ensures
        is_known_user_agent(r@),
{
    let index = rand::random::<usize>() % 3;
    if index == 0 {
        "Mozilla/5.0 (Windows NT 10.0; Win64; x64)...".to_owned()
    } else if index == 1 {
        "Mozilla/5.0 (Macintosh; Intel Mac OS X 10_15_7)...".to_owned()
    } else {
        "Mozilla/5.0 (iPhone; CPU iPhone OS 14_6 like Mac OS X)...".to_owned()
    }
}

/// A politeness delay, in whole seconds, drawn from `min_secs ..= max_secs`.
/// The driver sleeps this long between the end of one run and further work.
pub fn pick_delay(min_secs: u64, max_secs: u64) -> (d: u64)
    requires
        min_secs <= max_secs,
        max_secs - min_secs < u64::MAX,
    ensures
        min_secs <= d <= max_secs,
{
    let span = max_secs - min_secs + 1;
    let r = rand::random::<u64>();
    min_secs + r % span
}

} // verus!
