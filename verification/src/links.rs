//! Link discovery: collecting same-host documentation links from the
//! navigation elements of a page, up to a cap.
use crate::model::Elem;
use crate::web::{resolve_href, resolved_of, same_host, same_host_of};
use vstd::prelude::*;

verus! {

/// The link one navigation element contributes: its `href` resolved
/// against the base URL, kept only when the resolved URL's host equals
/// the base URL's host.
pub open spec fn link_of(e: Elem, base: Seq<char>) -> Option<Seq<char>> {
    match e.href {
        Some(h) => match resolved_of(base, h@) {
            Some(u) => {
                if same_host_of(base, u) {
                    Some(u)
                } else {
                    None
                }
            },
            None => None,
        },
        None => None,
    }
}

/// The links discovered from the navigation elements, in document
/// order, stopping once `budget` links are collected; elements whose
/// href is absent, unresolvable or off-host are skipped.
pub open spec fn discover_spec(navs: Seq<Elem>, base: Seq<char>, budget: int) -> Seq<Seq<char>>
    decreases navs.len(),
{
    if navs.len() == 0 || budget <= 0 {
        Seq::<Seq<char>>::empty()
    } else {
        match link_of(navs[0], base) {
            Some(l) => seq![l] + discover_spec(navs.drop_first(), base, budget - 1),
            None => discover_spec(navs.drop_first(), base, budget),
        }
    }
}

/// Discovery never yields more links than its budget, and never one
/// whose host differs from the base URL's host.
pub proof fn lemma_discover_spec_bounded(navs: Seq<Elem>, base: Seq<char>, budget: int)
    ensures
        budget >= 0 ==> discover_spec(navs, base, budget).len() <= budget,
        forall|k: int|
            0 <= k < discover_spec(navs, base, budget).len() ==> same_host_of(
                base,
                #[trigger] discover_spec(navs, base, budget)[k],
            ),
    decreases navs.len(),
{
    if navs.len() == 0 || budget <= 0 {
    } else {
        lemma_discover_spec_bounded(navs.drop_first(), base, budget - 1);
        lemma_discover_spec_bounded(navs.drop_first(), base, budget);
        match link_of(navs[0], base) {
            Some(l) => {
                assert(forall|k: int|
                    1 <= k < discover_spec(navs, base, budget).len()
                        ==> discover_spec(navs, base, budget)[k] == discover_spec(
                        navs.drop_first(),
                        base,
                        budget - 1,
                    )[k - 1]);
            },
            None => {},
        }
    }
}

/// Collects same-host links from the navigation elements of a page,
/// resolved against the base URL, at most `max_pages` of them. A link
/// that fails to resolve is skipped; one on another host is never
/// returned.
pub fn discover_documentation_links(nav_links: &Vec<Elem>, base_url: &str, max_pages: usize) -> (r:
    Vec<String>)
    ensures
        r.deep_view() == discover_spec(nav_links@, base_url@, max_pages as int),
        r.len() <= max_pages,
        forall|k: int|
            0 <= k < r.len() ==> same_host_of(base_url@, #[trigger] r.deep_view()[k]),
{
    let mut out: Vec<String> = Vec::new();
    let mut i: usize = 0;
    proof {
        assert(nav_links@.skip(0) =~= nav_links@);
        assert(out.deep_view() + discover_spec(nav_links@, base_url@, max_pages as int)
            =~= discover_spec(nav_links@, base_url@, max_pages as int));
    }
    while i < nav_links.len() && out.len() < max_pages
        invariant
            i <= nav_links.len(),
            out.len() <= max_pages,
            out.deep_view() + discover_spec(
                nav_links@.skip(i as int),
                base_url@,
                max_pages - out.len(),
            ) == discover_spec(nav_links@, base_url@, max_pages as int),
            forall|k: int|
                0 <= k < out.len() ==> same_host_of(base_url@, #[trigger] out.deep_view()[k]),
        decreases nav_links.len() - i,
    {
        proof {
            assert(nav_links@.skip(i as int)[0] == nav_links@[i as int]);
            assert(nav_links@.skip(i as int).drop_first() =~= nav_links@.skip(i as int + 1));
        }
        let ghost old_out = out.deep_view();
        match &nav_links[i].href {
            Some(h) => {
                match resolve_href(base_url, h.as_str()) {
                    Some(u) => {
                        if same_host(base_url, u.as_str()) {
                            let ghost uv = u@;
                            out.push(u);
                            proof {
                                assert(out.deep_view() =~= old_out.push(uv));
                                assert(old_out.push(uv) + discover_spec(
                                    nav_links@.skip(i as int + 1),
                                    base_url@,
                                    max_pages - out.len(),
                                ) =~= old_out + (seq![uv] + discover_spec(
                                    nav_links@.skip(i as int + 1),
                                    base_url@,
                                    max_pages - out.len(),
                                )));
                            }
                        }
                    },
                    None => {},
                }
            },
            None => {},
        }
        i = i + 1;
    }
    proof {
        if i == nav_links.len() {
            assert(nav_links@.skip(nav_links.len() as int) =~= Seq::<Elem>::empty());
        }
        assert(out.deep_view() + Seq::<Seq<char>>::empty() =~= out.deep_view());
    }
    out
}

} // verus!
