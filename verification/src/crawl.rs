//! The crawl's decisions: the scraper's configuration, the bounded URL
//! frontier, and the collection of the pages the tasks produced.
//!
//! The fetches themselves, the per-request delay and the concurrency
//! gate are the caller's: it runs one task per frontier URL, at most
//! `max_concurrent` at once, claims the URL, fetches, models the
//! document and calls the extractor; this module decides what is
//! fetched and what is kept.
use crate::page::{DocumentationPage, PageV};
use crate::profiles::{config_view, lookup, spec_config, PlatformConfig};
use crate::text::{lower_of, lower_str};
use vstd::prelude::*;

verus! {

/// A documentation-site scraper: the (lowercased) platform key, the
/// fixed per-request delay in milliseconds, and the concurrency cap.
pub struct DocumentationScraperRust {
    pub platform: String,
    pub delay_ms: u64,
    pub max_concurrent: usize,
}

impl DocumentationScraperRust {
    /// Builds a scraper; the platform key is lowercased here, once.
    pub fn new(platform: &str, delay_ms: u64, max_concurrent: usize) -> (s:
        DocumentationScraperRust)
        ensures
            s.platform@ == lower_of(platform@),
            s.delay_ms == delay_ms,
            s.max_concurrent == max_concurrent,
    {
        DocumentationScraperRust { platform: lower_str(platform), delay_ms, max_concurrent }
    }

    /// The extraction profile of this scraper's platform.
    pub fn config(&self) -> (c: PlatformConfig)
        ensures
            config_view(&c) == spec_config(self.platform@),
    {
        lookup(self.platform.as_str())
    }
}

/// The frontier of one crawl run: the base URL first, then the
/// discovered links in order, cut off at `max_pages`.
pub open spec fn frontier_spec(base: Seq<char>, discovered: Seq<Seq<char>>, max_pages: int) -> Seq<
    Seq<char>,
> {
    let all = seq![base] + discovered;
    if all.len() <= max_pages {
        all
    } else {
        all.take(max_pages)
    }
}

/// Builds the frontier: the base URL, then the discovered links, never
/// more than `max_pages` URLs in all. Beyond the base URL's own
/// link-discovery fetch, a crawl fetches only frontier URLs.
pub fn build_frontier(base_url: &str, discovered: &Vec<String>, max_pages: usize) -> (r: Vec<
    String,
>)
    ensures
        r.deep_view() == frontier_spec(base_url@, discovered.deep_view(), max_pages as int),
        r.len() <= max_pages,
        max_pages >= 1 ==> r.len() >= 1 && r.deep_view()[0] == base_url@,
{
    let ghost all = seq![base_url@] + discovered.deep_view();
    let mut out: Vec<String> = Vec::new();
    if max_pages == 0 {
        proof {
            assert(out.deep_view() =~= all.take(0));
        }
        return out;
    }
    out.push(base_url.to_owned());
    proof {
        assert(out.deep_view() =~= all.take(1));
    }
    let mut i: usize = 0;
    while i < discovered.len() && out.len() < max_pages
        invariant
            i <= discovered.len(),
            out.len() == i + 1,
            out.len() <= max_pages,
            all == seq![base_url@] + discovered.deep_view(),
            out.deep_view() == all.take(i + 1),
        decreases discovered.len() - i,
    {
        let ghost old_out = out.deep_view();
        out.push(discovered[i].clone());
        proof {
            assert(all[i + 1] == discovered.deep_view()[i as int]);
            assert(out.deep_view() =~= old_out.push(discovered.deep_view()[i as int]));
            assert(out.deep_view() =~= all.take(i + 2));
        }
        i = i + 1;
    }
    proof {
        if i == discovered.len() {
            assert(all.take(i + 1) =~= all);
        }
        if all.len() <= max_pages {
            assert(out.deep_view() =~= all);
        } else {
            assert(out.deep_view() =~= all.take(max_pages as int));
        }
    }
    out
}

/// With a page cap of one the frontier is the base URL alone: no other
/// page fetch is ever issued.
pub proof fn lemma_frontier_cap_one(base: Seq<char>, discovered: Seq<Seq<char>>)
    ensures
        frontier_spec(base, discovered, 1) == seq![base],
        frontier_spec(base, discovered, 1).len() <= 1,
{
    let all = seq![base] + discovered;
    if all.len() <= 1 {
        assert(all =~= seq![base]);
    } else {
        assert(all.take(1) =~= seq![base]);
    }
}

/// The extracted pages among the tasks' results, in result order;
/// skipped pages leave no record.
pub open spec fn collect_spec(results: Seq<Option<PageV>>) -> Seq<PageV>
    decreases results.len(),
{
    if results.len() == 0 {
        Seq::<PageV>::empty()
    } else {
        match results[0] {
            Some(p) => seq![p] + collect_spec(results.drop_first()),
            None => collect_spec(results.drop_first()),
        }
    }
}

/// Keeps the extracted pages, dropping every skip.
pub fn collect_pages(results: Vec<Option<DocumentationPage>>) -> (r: Vec<DocumentationPage>)
    ensures
        r.deep_view() == collect_spec(results.deep_view()),
{
    let ghost orig = results.deep_view();
    let mut rest = results;
    let mut out: Vec<DocumentationPage> = Vec::new();
    proof {
        assert(out.deep_view() + collect_spec(orig) =~= collect_spec(orig));
    }
    while rest.len() > 0
        invariant
            out.deep_view() + collect_spec(rest.deep_view()) == collect_spec(orig),
        decreases rest.len(),
    {
        let ghost rest_deep = rest.deep_view();
        let first = rest.remove(0);
        proof {
            assert(rest.deep_view() =~= rest_deep.drop_first());
            assert(first.deep_view() == rest_deep[0]);
        }
        let ghost old_out = out.deep_view();
        match first {
            Some(p) => {
                let ghost pv = p@;
                out.push(p);
                proof {
                    assert(out.deep_view() =~= old_out.push(pv));
                    assert(old_out.push(pv) + collect_spec(rest.deep_view()) =~= old_out + (
                    seq![pv] + collect_spec(rest.deep_view())));
                }
            },
            None => {},
        }
    }
    proof {
        assert(rest.deep_view() =~= Seq::<Option<PageV>>::empty());
        assert(out.deep_view() + Seq::<PageV>::empty() =~= out.deep_view());
    }
    out
}

/// A page whose content is shorter than one hundred characters is never
/// in the collected page list: extraction yields no record for such a
/// page, and collection keeps only extracted records.
pub proof fn lemma_short_pages_never_collected(results: Seq<Option<PageV>>)
    requires
        forall|i: int|
            0 <= i < results.len() ==> ((#[trigger] results[i]) is Some ==> results[i]->0.content.len()
                >= 100),
    ensures
        forall|j: int|
            0 <= j < collect_spec(results).len() ==> (#[trigger] collect_spec(results)[j]).content.len()
                >= 100,
    decreases results.len(),
{
    if results.len() == 0 {
    } else {
        assert(forall|i: int|
            0 <= i < results.drop_first().len() ==> results.drop_first()[i] == results[i + 1]);
        lemma_short_pages_never_collected(results.drop_first());
        match results[0] {
            Some(p) => {
                assert(forall|j: int|
                    1 <= j < collect_spec(results).len() ==> collect_spec(results)[j]
                        == collect_spec(results.drop_first())[j - 1]);
            },
            None => {},
        }
    }
}

} // verus!
