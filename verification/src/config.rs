//! Configuration for one traversal run.

use vstd::prelude::*;

verus! {

/// Settings that stay fixed while one breadth-first traversal runs: whether
/// links are followed at all, how many expansion waves are allowed, and an
/// optional user-agent header value to send with each request.
pub struct ScraperConfig {
    pub follow_links: bool,
    pub max_depth: i32,
    pub user_agent: Option<String>,
}

impl ScraperConfig {
    pub fn new(follow_links: bool, max_depth: i32, user_agent: Option<String>) -> (c: ScraperConfig)
        ensures
            c.follow_links == follow_links,
            c.max_depth == max_depth,
            c.user_agent == user_agent,
    {
        ScraperConfig { follow_links, max_depth, user_agent }
    }

    pub fn set_follow_links(&mut self, follow: bool)
        ensures
            final(self).follow_links == follow,
            final(self).max_depth == old(self).max_depth,
            final(self).user_agent == old(self).user_agent,
    {
        self.follow_links = follow;
    }

    pub fn set_max_depth(&mut self, depth: i32)
        ensures
            final(self).follow_links == old(self).follow_links,
            final(self).max_depth == depth,
            final(self).user_agent == old(self).user_agent,
    {
        self.max_depth = depth;
    }

    pub fn set_user_agent(&mut self, agent: Option<String>)
        ensures
            final(self).follow_links == old(self).follow_links,
            final(self).max_depth == old(self).max_depth,
            final(self).user_agent == agent,
    {
        self.user_agent = agent;
    }

    pub fn follow_links(&self) -> (r: bool)
        ensures
            r == self.follow_links,
    {
        self.follow_links
    }

    pub fn max_depth(&self) -> (r: i32)
        ensures
            r == self.max_depth,
    {
        self.max_depth
    }

    pub fn user_agent(&self) -> (r: Option<&String>)
        ensures
            r is Some <==> self.user_agent is Some,
            (r matches Some(a) ==> Some(*a) == self.user_agent),
    {
        self.user_agent.as_ref()
    }
}

impl Default for ScraperConfig {
    /// The defaults of a run that is not configured otherwise: links are
    /// followed, up to three expansion waves, no user-agent header.
    fn default() -> (c: Self)
        ensures
            c.follow_links == true,
            c.max_depth == 3,
            c.user_agent is None,
    {
        ScraperConfig { follow_links: true, max_depth: 3, user_agent: None }
    }
}

} // verus!
