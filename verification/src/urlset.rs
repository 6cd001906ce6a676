//! An ordered set of URLs. Both the visited set of a traversal run and the
//! result of link extraction are held in one of these; no URL occurs twice.

use vstd::prelude::*;

verus! {

/// URLs in insertion order, each at most once. The view is the sequence of
/// the URLs' character sequences; well-formedness says it has no duplicates.
pub struct UrlSet {
    pub urls: Vec<String>,
}

impl View for UrlSet {
    type V = Seq<Seq<char>>;

    open spec fn view(&self) -> Seq<Seq<char>> {
        self.urls.deep_view()
    }
}

impl UrlSet {
    pub open spec fn wf(self) -> bool {
        self@.no_duplicates()
    }

    pub fn new() -> (s: UrlSet)
        ensures
            s@ == Seq::<Seq<char>>::empty(),
            s.wf(),
    {
        let s = UrlSet { urls: Vec::new() };
        proof {
            assert(s@ =~= Seq::<Seq<char>>::empty());
        }
        s
    }

    pub fn len(&self) -> (n: usize)
        ensures
            n == self@.len(),
    {
        self.urls.len()
    }

    /// Membership, by character-for-character equality of URLs.
    pub fn contains(&self, url: &String) -> (r: bool)
        ensures
            r == self@.contains(url@),
    {
        let mut i: usize = 0;
        while i < self.urls.len()
            invariant
                0 <= i <= self.urls@.len(),
                forall|j: int| 0 <= j < i ==> self@[j] != url@,
            decreases self.urls@.len() - i,
        {
            if self.urls[i] == *url {
                assert(self@[i as int] == url@);
                return true;
            }
            i += 1;
        }
        assert(!self@.contains(url@));
        false
    }

    /// Adds `url` unless it is already present; the set stays duplicate-free.
    pub fn insert(&mut self, url: String)
        requires
            old(self).wf(),
        ensures
            final(self).wf(),
            final(self)@ == (if old(self)@.contains(url@) {
                old(self)@
            } else {
                old(self)@.push(url@)
            }),
    {
        if !self.contains(&url) {
            let ghost before = self@;
            self.urls.push(url);
            proof {
                assert(self@ =~= before.push(url@));
            }
        }
    }

    /// The URL at position `i`, in insertion order.
    pub fn get(&self, i: usize) -> (r: &String)
        requires
            i < self@.len(),
        ensures
            r@ == self@[i as int],
    {
        &self.urls[i]
    }
}

/// Law: a well-formed URL set holds any given URL at most once.
pub proof fn lemma_url_at_most_once(s: UrlSet, url: Seq<char>)
    requires
        s.wf(),
    ensures
        s@.to_multiset().count(url) <= 1,
{
    s@.lemma_multiset_has_no_duplicates();
}

} // verus!
