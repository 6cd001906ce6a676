//! The traversal engines. Mode A expands unconditionally, depth-first,
//! driven by an explicit work stack in place of recursion. Mode B expands
//! breadth-first, gated by a target phrase and bounded by a wave budget.
//! Each engine is a step machine: the driver asks for the next URL to
//! fetch, performs the fetch outside the library, and hands the outcome
//! back. Both modes share one invariant: within a run, each distinct URL
//! is handed out for fetching at most once.

use vstd::prelude::*;
use crate::config::ScraperConfig;
use crate::fetch::{FetchOutcome, fetched_ok, outcome_body, status_is_success};
use crate::links::{extract_links, spec_extract_links};
use crate::matcher::should_scrape_content;
use crate::text::contains_seq;
use crate::urlset::UrlSet;

verus! {

/// Dequeues from the front of `frontier` until a URL outside `visited`
/// turns up: that URL and the rest of the frontier, or `None` when the
/// frontier runs dry. The lazy dedup of the breadth-first loop.
pub open spec fn next_unvisited(frontier: Seq<Seq<char>>, visited: Seq<Seq<char>>) -> Option<
    (Seq<char>, Seq<Seq<char>>),
>
    decreases frontier.len(),
{
    if frontier.len() == 0 {
        None
    } else if visited.contains(frontier.first()) {
        next_unvisited(frontier.drop_first(), visited)
    } else {
        Some((frontier.first(), frontier.drop_first()))
    }
}

/// As `next_unvisited`, but from the back: the pop order of the work stack
/// that drives the depth-first mode.
pub open spec fn next_unvisited_back(pending: Seq<Seq<char>>, visited: Seq<Seq<char>>) -> Option<
    (Seq<char>, Seq<Seq<char>>),
>
    decreases pending.len(),
{
    if pending.len() == 0 {
        None
    } else if visited.contains(pending.last()) {
        next_unvisited_back(pending.drop_last(), visited)
    } else {
        Some((pending.last(), pending.drop_last()))
    }
}

/// The members of `links` that are not in `visited`, in their order.
pub open spec fn unvisited_links(links: Seq<Seq<char>>, visited: Seq<Seq<char>>) -> Seq<
    Seq<char>,
> {
    links.filter(|u: Seq<char>| !visited.contains(u))
}

/// Law: a URL that is already visited is never handed out again, from
/// either end of the work list. Together with the fact that every URL an
/// engine hands out is put into the visited set in the same step, this
/// gives at-most-once fetching per distinct URL within a run.
pub proof fn lemma_no_refetch(work: Seq<Seq<char>>, visited: Seq<Seq<char>>, url: Seq<char>)
    requires
        visited.contains(url),
    ensures
        (match next_unvisited(work, visited) {
            Some(p) => p.0 != url,
            None => true,
        }),
        (match next_unvisited_back(work, visited) {
            Some(p) => p.0 != url,
            None => true,
        }),
    decreases work.len(),
{
    if work.len() > 0 {
        lemma_no_refetch(work.drop_first(), visited, url);
        lemma_no_refetch(work.drop_last(), visited, url);
    }
}

/// What one dequeue step of the unconditional mode promises: the relation
/// between the state before, the state after, and the URL handed out.
pub open spec fn dfs_dequeue_rel(pre: DfsTraversal, post: DfsTraversal, r: Option<Seq<char>>) -> bool {
    match next_unvisited_back(pre.pending_view(), pre.visited@) {
        None => {
            &&& r is None
            &&& post.visited@ == pre.visited@
            &&& post.pending_view() == Seq::<Seq<char>>::empty()
        },
        Some(p) => {
            &&& r == Some(p.0)
            &&& !pre.visited@.contains(p.0)
            &&& post.visited@ == pre.visited@.push(p.0)
            &&& post.pending_view() == p.1
        },
    }
}

/// What one expansion step of the unconditional mode promises: the page's
/// links, less the visited ones, are appended to the pending work.
pub open spec fn dfs_append_rel(pre: DfsTraversal, post: DfsTraversal, links: Seq<Seq<char>>) -> bool {
    &&& post.visited == pre.visited
    &&& post.pending_view() == pre.pending_view() + unvisited_links(links, pre.visited@)
}

/// What one dequeue step of the gated mode promises.
pub open spec fn bfs_dequeue_rel(pre: BfsTraversal, post: BfsTraversal, r: Option<Seq<char>>) -> bool {
    &&& post.config == pre.config
    &&& post.depth == pre.depth
    &&& match next_unvisited(pre.frontier_view(), pre.visited@) {
        None => {
            &&& r is None
            &&& post.visited@ == pre.visited@
            &&& post.frontier_view() == Seq::<Seq<char>>::empty()
        },
        Some(p) => {
            &&& r == Some(p.0)
            &&& !pre.visited@.contains(p.0)
            &&& post.visited@ == pre.visited@.push(p.0)
            &&& post.frontier_view() == p.1
        },
    }
}

/// What processing one fetched page in the gated mode promises.
pub open spec fn bfs_process_rel(
    pre: BfsTraversal,
    post: BfsTraversal,
    page: Seq<char>,
    outcome: FetchOutcome,
    phrase: Seq<char>,
) -> bool {
    &&& post.config == pre.config
    &&& post.visited == pre.visited
    &&& post.depth == (if pre.expands(outcome, phrase) {
        pre.depth + 1
    } else {
        pre.depth as int
    })
    &&& post.frontier_view() == (if pre.expands(outcome, phrase) {
        pre.frontier_view() + unvisited_links(
            spec_extract_links(outcome_body(outcome), page),
            pre.visited@,
        )
    } else {
        pre.frontier_view()
    })
}

/// Queues every member of `links` that is not in `visited`, in order.
fn append_unvisited(queue: &mut Vec<String>, links: &UrlSet, visited: &UrlSet)
    ensures
        final(queue).deep_view() == old(queue).deep_view() + unvisited_links(
            links@,
            visited@,
        ),
{
    let ghost q0 = old(queue).deep_view();
    let mut i: usize = 0;
    proof {
        reveal(Seq::filter);
        assert(links@.take(0) =~= Seq::<Seq<char>>::empty());
        assert(queue.deep_view() =~= q0 + unvisited_links(links@.take(0), visited@));
    }
    while i < links.len()
        invariant
            0 <= i <= links@.len(),
            queue.deep_view() == q0 + unvisited_links(links@.take(i as int), visited@),
        decreases links@.len() - i,
    {
        let u = links.get(i);
        proof {
            reveal(Seq::filter);
            assert(links@.take(i + 1).drop_last() =~= links@.take(i as int));
            assert(links@.take(i + 1).last() == links@[i as int]);
        }
        if !visited.contains(u) {
            let ghost before = queue.deep_view();
            queue.push(u.clone());
            proof {
                reveal(Seq::filter);
                assert(queue.deep_view() =~= before.push(links@[i as int]));
                assert(queue.deep_view() =~= q0 + unvisited_links(
                    links@.take(i + 1),
                    visited@,
                ));
            }
        } else {
            proof {
                reveal(Seq::filter);
                assert(unvisited_links(links@.take(i + 1), visited@) == unvisited_links(
                    links@.take(i as int),
                    visited@,
                ));
            }
        }
        i += 1;
    }
    proof {
        assert(links@.take(links@.len() as int) =~= links@);
    }
}

/// Mode A: unconditional expansion. Every page's links become pending work;
/// the recursive expansion runs as an explicit work stack here, and
/// the one visited set is shared by the whole run.
pub struct DfsTraversal {
    pub visited: UrlSet,
    pub pending: Vec<String>,
}

impl DfsTraversal {
    pub open spec fn wf(self) -> bool {
        self.visited.wf()
    }

    pub open spec fn pending_view(self) -> Seq<Seq<char>> {
        self.pending.deep_view()
    }

    /// A fresh run, with nothing visited and the seed as the only work.
    pub fn new(seed: String) -> (t: DfsTraversal)
        ensures
            t.wf(),
            t.visited@ == Seq::<Seq<char>>::empty(),
            t.pending_view() == seq![seed@],
    {
        let mut pending: Vec<String> = Vec::new();
        let ghost s = seed@;
        pending.push(seed);
        proof {
            assert(pending.deep_view() =~= seq![s]);
        }
        DfsTraversal { visited: UrlSet::new(), pending }
    }

    /// Hands out the next URL to fetch: the newest pending entry that is
    /// not yet visited, which this step also marks visited. `None` means
    /// the run is over: every reachable, unvisited URL is exhausted.
    pub fn next_url(&mut self) -> (r: Option<String>)
        requires
            old(self).wf(),
        ensures
            final(self).wf(),
            dfs_dequeue_rel(*old(self), *final(self), r.deep_view()),
    {
        loop
            invariant
                self.wf(),
                self.visited == old(self).visited,
                next_unvisited_back(self.pending_view(), self.visited@) == next_unvisited_back(
                    old(self).pending_view(),
                    old(self).visited@,
                ),
            decreases self.pending@.len(),
        {
            let ghost before = self.pending.deep_view();
            let popped = self.pending.pop();
            match popped {
                None => {
                    proof {
                        assert(self.pending.deep_view() =~= Seq::<Seq<char>>::empty());
                    }
                    return None;
                },
                Some(u) => {
                    proof {
                        assert(self.pending.deep_view() =~= before.drop_last());
                        assert(u@ == before.last());
                    }
                    if !self.visited.contains(&u) {
                        let c = u.clone();
                        self.visited.insert(c);
                        return Some(u);
                    }
                },
            }
        }
    }

    /// Mode A expansion: on a fetched page, every extracted link that is
    /// not yet visited becomes pending work. On a failed fetch the driver
    /// simply does not call this, which leaves the run's state as it was.
    pub fn expand(&mut self, html: &str, page_url: &str)
        requires
            old(self).wf(),
        ensures
            final(self).wf(),
            dfs_append_rel(*old(self), *final(self), spec_extract_links(html@, page_url@)),
    {
        let links = extract_links(html, page_url);
        self.record_links(&links);
    }

    /// Queues every member of `links` that is not yet visited.
    pub fn record_links(&mut self, links: &UrlSet)
        requires
            old(self).wf(),
        ensures
            final(self).wf(),
            dfs_append_rel(*old(self), *final(self), links@),
    {
        append_unvisited(&mut self.pending, links, &self.visited);
    }
}

/// Mode B: depth-bounded, phrase-gated breadth-first expansion. The
/// frontier is a FIFO queue seeded with the start URL; a page's links are
/// enqueued only while the page matches the target phrase, links are being
/// followed, and the wave budget is not used up. The depth counter is one
/// global expansion-wave counter for the whole run, advanced once per page
/// whose links are enqueued — not a per-URL graph distance.
pub struct BfsTraversal {
    pub config: ScraperConfig,
    pub visited: UrlSet,
    pub frontier: Vec<String>,
    pub depth: i32,
}

impl BfsTraversal {
    pub open spec fn wf(self) -> bool {
        &&& self.visited.wf()
        &&& self.depth >= 0
    }

    pub open spec fn frontier_view(self) -> Seq<Seq<char>> {
        self.frontier.deep_view()
    }

    /// The condition for one expansion wave: the fetch succeeded, the page holds
    /// the target phrase, links are followed, and budget remains.
    pub open spec fn expands(self, outcome: FetchOutcome, phrase: Seq<char>) -> bool {
        &&& fetched_ok(outcome)
        &&& contains_seq(outcome_body(outcome), phrase)
        &&& self.config.follow_links
        &&& self.depth < self.config.max_depth
    }

    /// A fresh run under `config`, with nothing visited, the seed as the
    /// whole frontier, and no expansion wave spent.
    pub fn new(seed: String, config: ScraperConfig) -> (t: BfsTraversal)
        ensures
            t.wf(),
            t.config == config,
            t.visited@ == Seq::<Seq<char>>::empty(),
            t.frontier_view() == seq![seed@],
            t.depth == 0,
    {
        let mut frontier: Vec<String> = Vec::new();
        let ghost s = seed@;
        frontier.push(seed);
        proof {
            assert(frontier.deep_view() =~= seq![s]);
        }
        BfsTraversal { config, visited: UrlSet::new(), frontier, depth: 0 }
    }

    /// Dequeues the next URL to fetch: the oldest frontier entry that is
    /// not yet visited, which this step also marks visited. Entries already
    /// visited are skipped — the lazy dedup re-check. `None` ends the run.
    pub fn next_url(&mut self) -> (r: Option<String>)
        requires
            old(self).wf(),
        ensures
            final(self).wf(),
            bfs_dequeue_rel(*old(self), *final(self), r.deep_view()),
    {
        loop
            invariant
                self.wf(),
                self.config == old(self).config,
                self.depth == old(self).depth,
                self.visited == old(self).visited,
                next_unvisited(self.frontier_view(), self.visited@) == next_unvisited(
                    old(self).frontier_view(),
                    old(self).visited@,
                ),
            decreases self.frontier@.len(),
        {
            if self.frontier.len() == 0 {
                proof {
                    assert(self.frontier.deep_view() =~= Seq::<Seq<char>>::empty());
                }
                return None;
            }
            let ghost before = self.frontier.deep_view();
            let u = self.frontier.remove(0);
            proof {
                assert(self.frontier.deep_view() =~= before.drop_first());
                assert(u@ == before.first());
            }
            if !self.visited.contains(&u) {
                let c = u.clone();
                self.visited.insert(c);
                return Some(u);
            }
        }
    }

    /// One page's worth of the loop body after its fetch: decides whether
    /// this page's links are enqueued and the wave counter advances. A
    /// failed fetch, an unsuccessful status or a page without the target
    /// phrase enqueues nothing and leaves the already-queued work as it is.
    pub fn process_page(&mut self, page_url: &str, outcome: &FetchOutcome, target_phrase: &str)
        requires
            old(self).wf(),
        ensures
            final(self).wf(),
            bfs_process_rel(*old(self), *final(self), page_url@, *outcome, target_phrase@),
    {
        match outcome {
            FetchOutcome::Success { status, body } => {
                if status_is_success(*status) {
                    if should_scrape_content(body.as_str(), target_phrase) {
                        if self.config.follow_links && self.depth < self.config.max_depth {
                            let links = extract_links(body.as_str(), page_url);
                            append_unvisited(&mut self.frontier, &links, &self.visited);
                            self.depth = self.depth + 1;
                        }
                    }
                }
            },
            FetchOutcome::NetworkError => {},
            FetchOutcome::BodyReadError => {},
        }
    }
}

/// Law: with no wave budget, no step of the gated mode ever expands — no
/// link is ever enqueued, match or no match.
pub proof fn lemma_zero_budget_never_expands(
    t: BfsTraversal,
    outcome: FetchOutcome,
    phrase: Seq<char>,
)
    requires
        t.wf(),
        t.config.max_depth <= 0,
    ensures
        !t.expands(outcome, phrase),
{
}

/// Law: a page whose content does not contain the target phrase never
/// expands: it contributes nothing to the frontier, valid links or not.
pub proof fn lemma_no_match_never_expands(
    t: BfsTraversal,
    outcome: FetchOutcome,
    phrase: Seq<char>,
)
    requires
        !contains_seq(outcome_body(outcome), phrase),
    ensures
        !t.expands(outcome, phrase),
{
}

/// Law: a transport failure, a failed body read or a non-success status
/// never expands: the page's links stay unexplored, while the rest of the
/// frontier — siblings already queued — is untouched.
pub proof fn lemma_failed_fetch_never_expands(
    t: BfsTraversal,
    outcome: FetchOutcome,
    phrase: Seq<char>,
)
    requires
        !fetched_ok(outcome),
    ensures
        !t.expands(outcome, phrase),
{
}

/// One abstract step of an unconditional run: what happened between two
/// states, as the step functions' contracts describe it.
pub enum DfsStep {
    Dequeue { fetched: Option<Seq<char>> },
    Append { links: Seq<Seq<char>> },
}

pub open spec fn dfs_step_rel(pre: DfsTraversal, post: DfsTraversal, step: DfsStep) -> bool {
    match step {
        DfsStep::Dequeue { fetched } => dfs_dequeue_rel(pre, post, fetched),
        DfsStep::Append { links } => dfs_append_rel(pre, post, links),
    }
}

/// `states` is one unconditional run driven by `steps`: each consecutive
/// pair of states is related by the contract of the step between them.
pub open spec fn dfs_run(states: Seq<DfsTraversal>, steps: Seq<DfsStep>) -> bool {
    &&& states.len() == steps.len() + 1
    &&& forall|i: int|
        0 <= i < steps.len() ==> #[trigger] dfs_step_rel(states[i], states[i + 1], steps[i])
}

/// Within an unconditional run, the visited set only grows: a URL once
/// visited stays visited.
pub proof fn lemma_dfs_visited_monotone(
    states: Seq<DfsTraversal>,
    steps: Seq<DfsStep>,
    k: int,
    m: int,
    url: Seq<char>,
)
    requires
        dfs_run(states, steps),
        0 <= k <= m < states.len(),
        states[k].visited@.contains(url),
    ensures
        states[m].visited@.contains(url),
    decreases m - k,
{
    if k < m {
        assert(dfs_step_rel(states[k], states[k + 1], steps[k]));
        let pre = states[k].visited@;
        let w = choose|w: int| 0 <= w < pre.len() && pre[w] == url;
        match steps[k] {
            DfsStep::Dequeue { .. } => {
                match next_unvisited_back(states[k].pending_view(), pre) {
                    None => {},
                    Some(p) => {
                        assert(states[k + 1].visited@[w] == url);
                    },
                }
            },
            DfsStep::Append { .. } => {},
        }
        assert(states[k + 1].visited@.contains(url));
        lemma_dfs_visited_monotone(states, steps, k + 1, m, url);
    }
}

/// Law: within one unconditional run, each distinct URL is handed out for
/// fetching at most once — two dequeues never return the same URL.
pub proof fn lemma_dfs_at_most_once_per_run(
    states: Seq<DfsTraversal>,
    steps: Seq<DfsStep>,
    i: int,
    j: int,
    url: Seq<char>,
)
    requires
        dfs_run(states, steps),
        0 <= i < j < steps.len(),
        steps[i] == (DfsStep::Dequeue { fetched: Some(url) }),
    ensures
        steps[j] != (DfsStep::Dequeue { fetched: Some(url) }),
{
    assert(dfs_step_rel(states[i], states[i + 1], steps[i]));
    let pre = states[i].visited@;
    assert(states[i + 1].visited@[pre.len() as int] == url);
    assert(states[i + 1].visited@.contains(url));
    lemma_dfs_visited_monotone(states, steps, i + 1, j, url);
    assert(dfs_step_rel(states[j], states[j + 1], steps[j]));
    if steps[j] == (DfsStep::Dequeue { fetched: Some(url) }) {
        assert(!states[j].visited@.contains(url));
    }
}

/// One abstract step of a gated run.
pub enum BfsStep {
    Dequeue { fetched: Option<Seq<char>> },
    Process { page: Seq<char>, outcome: FetchOutcome, phrase: Seq<char> },
}

pub open spec fn bfs_step_rel(pre: BfsTraversal, post: BfsTraversal, step: BfsStep) -> bool {
    match step {
        BfsStep::Dequeue { fetched } => bfs_dequeue_rel(pre, post, fetched),
        BfsStep::Process { page, outcome, phrase } => bfs_process_rel(
            pre,
            post,
            page,
            outcome,
            phrase,
        ),
    }
}

/// `states` is one gated run driven by `steps`.
pub open spec fn bfs_run(states: Seq<BfsTraversal>, steps: Seq<BfsStep>) -> bool {
    &&& states.len() == steps.len() + 1
    &&& forall|i: int|
        0 <= i < steps.len() ==> #[trigger] bfs_step_rel(states[i], states[i + 1], steps[i])
}

/// Within a gated run, the visited set only grows.
pub proof fn lemma_bfs_visited_monotone(
    states: Seq<BfsTraversal>,
    steps: Seq<BfsStep>,
    k: int,
    m: int,
    url: Seq<char>,
)
    requires
        bfs_run(states, steps),
        0 <= k <= m < states.len(),
        states[k].visited@.contains(url),
    ensures
        states[m].visited@.contains(url),
    decreases m - k,
{
    if k < m {
        assert(bfs_step_rel(states[k], states[k + 1], steps[k]));
        let pre = states[k].visited@;
        let w = choose|w: int| 0 <= w < pre.len() && pre[w] == url;
        match steps[k] {
            BfsStep::Dequeue { .. } => {
                match next_unvisited(states[k].frontier_view(), pre) {
                    None => {},
                    Some(p) => {
                        assert(states[k + 1].visited@[w] == url);
                    },
                }
            },
            BfsStep::Process { .. } => {},
        }
        assert(states[k + 1].visited@.contains(url));
        lemma_bfs_visited_monotone(states, steps, k + 1, m, url);
    }
}

/// Law: within one gated run, each distinct URL is handed out for fetching
/// at most once — two dequeues never return the same URL.
pub proof fn lemma_bfs_at_most_once_per_run(
    states: Seq<BfsTraversal>,
    steps: Seq<BfsStep>,
    i: int,
    j: int,
    url: Seq<char>,
)
    requires
        bfs_run(states, steps),
        0 <= i < j < steps.len(),
        steps[i] == (BfsStep::Dequeue { fetched: Some(url) }),
    ensures
        steps[j] != (BfsStep::Dequeue { fetched: Some(url) }),
{
    assert(bfs_step_rel(states[i], states[i + 1], steps[i]));
    let pre = states[i].visited@;
    assert(states[i + 1].visited@[pre.len() as int] == url);
    assert(states[i + 1].visited@.contains(url));
    lemma_bfs_visited_monotone(states, steps, i + 1, j, url);
    assert(bfs_step_rel(states[j], states[j + 1], steps[j]));
    if steps[j] == (BfsStep::Dequeue { fetched: Some(url) }) {
        assert(!states[j].visited@.contains(url));
    }
}

/// Within a gated run, the configuration never changes and the wave
/// counter never falls below where it started.
pub proof fn lemma_bfs_config_constant(states: Seq<BfsTraversal>, steps: Seq<BfsStep>, m: int)
    requires
        bfs_run(states, steps),
        0 <= m < states.len(),
    ensures
        states[m].config == states[0].config,
        states[m].depth >= states[0].depth,
    decreases m,
{
    if m > 0 {
        lemma_bfs_config_constant(states, steps, m - 1);
        let i = m - 1;
        assert(bfs_step_rel(states[i], states[i + 1], steps[i]));
    }
}

/// Law: in a gated run whose configuration grants no wave budget, no
/// processing step ever enqueues — every page leaves the frontier exactly
/// as it was, match or no match.
pub proof fn lemma_bfs_zero_budget_run(states: Seq<BfsTraversal>, steps: Seq<BfsStep>, k: int)
    requires
        bfs_run(states, steps),
        states[0].depth >= 0,
        states[0].config.max_depth <= 0,
        0 <= k < steps.len(),
        steps[k] matches BfsStep::Process { .. },
    ensures
        states[k + 1].frontier_view() == states[k].frontier_view(),
        states[k + 1].depth == states[k].depth,
{
    lemma_bfs_config_constant(states, steps, k);
    assert(bfs_step_rel(states[k], states[k + 1], steps[k]));
}

} // verus!
