//! The visited set: each URL of a crawl is claimed exactly once.
//!
//! Crawl tasks run concurrently, so the caller shares one `VisitedSet`
//! behind a mutex and performs the whole check-and-insert as one atomic
//! `try_claim` call; the set exposes no separate check or insert that
//! could reintroduce the race.
use vstd::prelude::*;

verus! {

/// A set of canonical URLs, claimable once each.
pub struct VisitedSet {
    urls: Vec<String>,
}

impl View for VisitedSet {
    type V = Set<Seq<char>>;

    closed spec fn view(&self) -> Set<Seq<char>> {
        self.urls.deep_view().to_set()
    }
}

impl VisitedSet {
    /// An empty visited set.
    pub fn new() -> (s: VisitedSet)
        ensures
            s@ == Set::<Seq<char>>::empty(),
    {
        let s = VisitedSet { urls: Vec::new() };
        proof {
            assert(s.urls.deep_view() =~= Seq::<Seq<char>>::empty());
            assert(s.urls.deep_view().to_set() =~= Set::<Seq<char>>::empty());
        }
        s
    }

    fn contains_url(&self, url: &String) -> (r: bool)
        ensures
            r == self@.contains(url@),
    {
        let mut i: usize = 0;
        while i < self.urls.len()
            invariant
                i <= self.urls.len(),
                forall|k: int| 0 <= k < i ==> self.urls.deep_view()[k] != url@,
            decreases self.urls.len() - i,
        {
            if self.urls[i] == *url {
                proof {
                    assert(self.urls.deep_view()[i as int] == url@);
                    assert(self.urls.deep_view().contains(url@));
                }
                return true;
            }
            i = i + 1;
        }
        proof {
            assert(!self.urls.deep_view().contains(url@));
        }
        false
    }

    /// Atomically checks membership and inserts when absent: true
    /// exactly when the URL was not yet visited, i.e. when this call
    /// newly claimed it. After the call the URL is always a member.
    pub fn try_claim(&mut self, url: &str) -> (r: bool)
        ensures
            r == !old(self)@.contains(url@),
            final(self)@ == old(self)@.insert(url@),
    {
        let u = url.to_owned();
        if self.contains_url(&u) {
            proof {
                assert(self@.insert(url@) =~= self@);
            }
            false
        } else {
            let ghost old_deep = self.urls.deep_view();
            self.urls.push(u);
            proof {
                assert(self.urls.deep_view() =~= old_deep.push(url@));
                assert forall|y: Seq<char>| #[trigger]
                    old_deep.push(url@).to_set().contains(y) implies old_deep.to_set().insert(
                    url@,
                ).contains(y) by {
                    if old_deep.push(url@).contains(y) {
                        let k = choose|k: int|
                            0 <= k < old_deep.push(url@).len() && old_deep.push(url@)[k] == y;
                        if k < old_deep.len() {
                            assert(old_deep[k] == y);
                            assert(old_deep.contains(y));
                        }
                    }
                }
                assert forall|y: Seq<char>| #[trigger]
                    old_deep.to_set().insert(url@).contains(y) implies old_deep.push(
                    url@,
                ).to_set().contains(y) by {
                    if y == url@ {
                        assert(old_deep.push(url@)[old_deep.len() as int] == y);
                    } else {
                        let k = choose|k: int| 0 <= k < old_deep.len() && old_deep[k] == y;
                        assert(old_deep.push(url@)[k] == y);
                    }
                }
                assert(self.urls.deep_view().to_set() =~= old_deep.to_set().insert(url@));
            }
            true
        }
    }
}

/// The number of successful claims among `n` sequential claims of the
/// same URL against a set that starts as `s`.
pub open spec fn claims_true_count(s: Set<Seq<char>>, u: Seq<char>, n: nat) -> nat
    decreases n,
{
    if n == 0 {
        0
    } else {
        (if !s.contains(u) {
            1 as nat
        } else {
            0 as nat
        }) + claims_true_count(s.insert(u), u, (n - 1) as nat)
    }
}

/// However many times the same URL is claimed — and concurrent claims
/// serialize into some sequence of claims — exactly one claim of a new
/// URL succeeds and every other one fails; a URL already visited is
/// never claimed again.
pub proof fn lemma_claim_exactly_once(s: Set<Seq<char>>, u: Seq<char>, n: nat)
    ensures
        claims_true_count(s, u, n) == if n > 0 && !s.contains(u) {
            1 as nat
        } else {
            0 as nat
        },
    decreases n,
{
    if n == 0 {
    } else {
        assert(s.insert(u).contains(u));
        lemma_claim_exactly_once(s.insert(u), u, (n - 1) as nat);
    }
}

} // verus!
