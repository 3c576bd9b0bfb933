//! Cross-page statistics over the collected page records.
use crate::page::{ApiEndpoint, CodeExample, DocumentationPage};
use vstd::prelude::*;

verus! {

/// One row of a count table: a key and how often it occurs.
pub struct StatTableEntry {
    pub key: String,
    pub count: usize,
}

/// One statistic: a plain count, or a table of per-key counts.
pub enum StatValue {
    Count(u128),
    Table(Vec<StatTableEntry>),
}

/// One named statistic of the analysis.
pub struct StatEntry {
    pub name: String,
    pub value: StatValue,
}

/// How often `k` occurs in `items`.
pub open spec fn count_of(items: Seq<Seq<char>>, k: Seq<char>) -> nat {
    items.filter(|x: Seq<char>| x == k).len()
}

/// A well-formed count table over `items`: distinct keys, every key
/// occurring in `items`, every occurring key present, and each key's
/// count exact.
pub open spec fn table_props(table: Seq<StatTableEntry>, items: Seq<Seq<char>>) -> bool {
    &&& forall|j1: int, j2: int|
        0 <= j1 < j2 < table.len() ==> (#[trigger] table[j1]).key@ != (#[trigger] table[j2]).key@
    &&& forall|j: int| 0 <= j < table.len() ==> items.contains((#[trigger] table[j]).key@)
    &&& forall|j: int|
        0 <= j < table.len() ==> (#[trigger] table[j]).count == count_of(items, table[j].key@)
    &&& forall|k: Seq<char>| #[trigger] items.contains(k) ==> exists|j: int|
            0 <= j < table.len() && (#[trigger] table[j]).key@ == k
}

fn count_in(items: &Vec<String>, k: &String) -> (r: usize)
    ensures
        r == count_of(items.deep_view(), k@),
{
    let mut c: usize = 0;
    let mut i: usize = 0;
    proof {
        assert(items.deep_view().take(0) =~= Seq::<Seq<char>>::empty());
        assert(count_of(Seq::<Seq<char>>::empty(), k@) == 0);
    }
    while i < items.len()
        invariant
            i <= items.len(),
            c <= i,
            c == count_of(items.deep_view().take(i as int), k@),
        decreases items.len() - i,
    {
        proof {
            let pre = items.deep_view().take(i as int);
            let post = items.deep_view().take(i as int + 1);
            assert(post.drop_last() =~= pre);
            assert(post.last() == items.deep_view()[i as int]);
            reveal_with_fuel(Seq::filter, 2);
        }
        if items[i] == *k {
            c = c + 1;
        }
        i = i + 1;
    }
    proof {
        assert(items.deep_view().take(items.len() as int) =~= items.deep_view());
    }
    c
}

fn table_has_key(table: &Vec<StatTableEntry>, k: &String) -> (r: bool)
    ensures
        r == exists|j: int| 0 <= j < table.len() && (#[trigger] table@[j]).key@ == k@,
{
    let mut i: usize = 0;
    while i < table.len()
        invariant
            i <= table.len(),
            forall|j: int| 0 <= j < i ==> (#[trigger] table@[j]).key@ != k@,
        decreases table.len() - i,
    {
        if table[i].key == *k {
            return true;
        }
        i = i + 1;
    }
    false
}

/// Builds the count table of `items`: one row per distinct value, in
/// first-occurrence order, with its exact number of occurrences.
pub fn build_count_table(items: &Vec<String>) -> (r: Vec<StatTableEntry>)
    ensures
        table_props(r@, items.deep_view()),
{
    let mut table: Vec<StatTableEntry> = Vec::new();
    let mut i: usize = 0;
    while i < items.len()
        invariant
            i <= items.len(),
            forall|j1: int, j2: int|
                0 <= j1 < j2 < table@.len() ==> (#[trigger] table@[j1]).key@ != (
                #[trigger] table@[j2]).key@,
            forall|j: int|
                0 <= j < table@.len() ==> items.deep_view().contains((#[trigger] table@[j]).key@),
            forall|j: int|
                0 <= j < table@.len() ==> (#[trigger] table@[j]).count == count_of(
                    items.deep_view(),
                    table@[j].key@,
                ),
            forall|k: int|
                0 <= k < i ==> exists|j: int|
                    0 <= j < table@.len() && (#[trigger] table@[j]).key@ == (
                    #[trigger] items.deep_view()[k]),
        decreases items.len() - i,
    {
        let ghost table0 = table@;
        let it = &items[i];
        let ghost kv = it@;
        proof {
            assert(items.deep_view()[i as int] == kv);
            assert(items.deep_view().contains(kv));
        }
        if !table_has_key(&table, it) {
            let c = count_in(items, it);
            let entry = StatTableEntry { key: it.clone(), count: c };
            proof {
                assert(entry.key@ == kv);
            }
            table.push(entry);
            proof {
                assert(table@ =~= table0.push(entry));
                assert(table@[table@.len() - 1].key@ == kv);
            }
        }
        proof {
            assert(forall|j: int| 0 <= j < table0.len() ==> table@[j] == table0[j]);
            assert(exists|j: int| 0 <= j < table@.len() && (#[trigger] table@[j]).key@ == kv);
            assert forall|k: int| 0 <= k <= i as int implies exists|j: int|
                0 <= j < table@.len() && (#[trigger] table@[j]).key@ == (
                #[trigger] items.deep_view()[k]) by {
                if k < i as int {
                    let j0 = choose|j0: int|
                        0 <= j0 < table0.len() && (#[trigger] table0[j0]).key@
                            == items.deep_view()[k];
                    assert(table@[j0].key@ == items.deep_view()[k]);
                }
            }
        }
        i = i + 1;
    }
    proof {
        assert forall|k: Seq<char>| #[trigger] items.deep_view().contains(k) implies exists|j: int|
            0 <= j < table@.len() && (#[trigger] table@[j]).key@ == k by {
            let idx = choose|idx: int|
                0 <= idx < items.deep_view().len() && items.deep_view()[idx] == k;
            assert(exists|j: int|
                0 <= j < table@.len() && (#[trigger] table@[j]).key@ == items.deep_view()[idx]);
        }
    }
    table
}

/// The sections present among the pages, one per page that has one, in
/// page order.
pub open spec fn sections_flat(pages: Seq<DocumentationPage>) -> Seq<Seq<char>>
    decreases pages.len(),
{
    if pages.len() == 0 {
        Seq::<Seq<char>>::empty()
    } else {
        (match pages[0].section {
            Some(s) => seq![s@],
            None => Seq::<Seq<char>>::empty(),
        }) + sections_flat(pages.drop_first())
    }
}

/// Every tag of every page, in page order.
pub open spec fn tags_flat(pages: Seq<DocumentationPage>) -> Seq<Seq<char>>
    decreases pages.len(),
{
    if pages.len() == 0 {
        Seq::<Seq<char>>::empty()
    } else {
        pages[0].tags.deep_view() + tags_flat(pages.drop_first())
    }
}

/// The language of every code example of every page, in order; its
/// length is the total number of code examples.
pub open spec fn langs_flat(pages: Seq<DocumentationPage>) -> Seq<Seq<char>>
    decreases pages.len(),
{
    if pages.len() == 0 {
        Seq::<Seq<char>>::empty()
    } else {
        pages[0].code_examples@.map_values(|c: CodeExample| c.language@) + langs_flat(
            pages.drop_first(),
        )
    }
}

/// The method of every API endpoint of every page, in order; its
/// length is the total number of endpoints.
pub open spec fn methods_flat(pages: Seq<DocumentationPage>) -> Seq<Seq<char>>
    decreases pages.len(),
{
    if pages.len() == 0 {
        Seq::<Seq<char>>::empty()
    } else {
        pages[0].api_endpoints@.map_values(|e: ApiEndpoint| e.method@) + methods_flat(
            pages.drop_first(),
        )
    }
}

/// The summed content length of the pages, in characters.
pub open spec fn content_len_sum(pages: Seq<DocumentationPage>) -> int
    decreases pages.len(),
{
    if pages.len() == 0 {
        0
    } else {
        pages[0].content@.len() + content_len_sum(pages.drop_first())
    }
}

fn flat_sections(pages: &Vec<DocumentationPage>) -> (r: Vec<String>)
    ensures
        r.deep_view() == sections_flat(pages@),
{
    let mut out: Vec<String> = Vec::new();
    let mut i: usize = 0;
    proof {
        assert(pages@.skip(0) =~= pages@);
        assert(out.deep_view() + sections_flat(pages@) =~= sections_flat(pages@));
    }
    while i < pages.len()
        invariant
            i <= pages.len(),
            out.deep_view() + sections_flat(pages@.skip(i as int)) == sections_flat(pages@),
        decreases pages.len() - i,
    {
        proof {
            assert(pages@.skip(i as int)[0] == pages@[i as int]);
            assert(pages@.skip(i as int).drop_first() =~= pages@.skip(i as int + 1));
        }
        let ghost old_out = out.deep_view();
        match &pages[i].section {
            Some(s) => {
                out.push(s.clone());
                proof {
                    assert(out.deep_view() =~= old_out.push(pages@[i as int].section->0@));
                    assert(old_out.push(pages@[i as int].section->0@) + sections_flat(
                        pages@.skip(i as int + 1),
                    ) =~= old_out + (seq![pages@[i as int].section->0@] + sections_flat(
                        pages@.skip(i as int + 1),
                    )));
                }
            },
            None => {},
        }
        i = i + 1;
    }
    proof {
        assert(pages@.skip(pages.len() as int) =~= Seq::<DocumentationPage>::empty());
        assert(out.deep_view() + Seq::<Seq<char>>::empty() =~= out.deep_view());
    }
    out
}

fn flat_tags(pages: &Vec<DocumentationPage>) -> (r: Vec<String>)
    ensures
        r.deep_view() == tags_flat(pages@),
{
    let mut out: Vec<String> = Vec::new();
    let mut i: usize = 0;
    proof {
        assert(pages@.skip(0) =~= pages@);
        assert(out.deep_view() + tags_flat(pages@) =~= tags_flat(pages@));
    }
    while i < pages.len()
        invariant
            i <= pages.len(),
            out.deep_view() + tags_flat(pages@.skip(i as int)) == tags_flat(pages@),
        decreases pages.len() - i,
    {
        proof {
            assert(pages@.skip(i as int)[0] == pages@[i as int]);
            assert(pages@.skip(i as int).drop_first() =~= pages@.skip(i as int + 1));
        }
        let ghost chunk = pages@[i as int].tags.deep_view();
        let ghost before = out.deep_view();
        let tags = &pages[i].tags;
        let mut j: usize = 0;
        while j < tags.len()
            invariant
                j <= tags.len(),
                chunk == pages@[i as int].tags.deep_view(),
                tags == &pages@[i as int].tags,
                out.deep_view() == before + chunk.take(j as int),
            decreases tags.len() - j,
        {
            let ghost old_out = out.deep_view();
            out.push(tags[j].clone());
            proof {
                assert(out.deep_view() =~= old_out.push(chunk[j as int]));
                assert(before + chunk.take(j as int + 1) =~= (before + chunk.take(j as int)).push(
                    chunk[j as int],
                ));
            }
            j = j + 1;
        }
        proof {
            assert(chunk.take(tags.len() as int) =~= chunk);
            assert((before + chunk) + tags_flat(pages@.skip(i as int + 1)) =~= before + (chunk
                + tags_flat(pages@.skip(i as int + 1))));
        }
        i = i + 1;
    }
    proof {
        assert(pages@.skip(pages.len() as int) =~= Seq::<DocumentationPage>::empty());
        assert(out.deep_view() + Seq::<Seq<char>>::empty() =~= out.deep_view());
    }
    out
}

fn flat_langs(pages: &Vec<DocumentationPage>) -> (r: Vec<String>)
    ensures
        r.deep_view() == langs_flat(pages@),
{
    let mut out: Vec<String> = Vec::new();
    let mut i: usize = 0;
    proof {
        assert(pages@.skip(0) =~= pages@);
        assert(out.deep_view() + langs_flat(pages@) =~= langs_flat(pages@));
    }
    while i < pages.len()
        invariant
            i <= pages.len(),
            out.deep_view() + langs_flat(pages@.skip(i as int)) == langs_flat(pages@),
        decreases pages.len() - i,
    {
        proof {
            assert(pages@.skip(i as int)[0] == pages@[i as int]);
            assert(pages@.skip(i as int).drop_first() =~= pages@.skip(i as int + 1));
        }
        let ghost chunk = pages@[i as int].code_examples@.map_values(
            |c: CodeExample| c.language@,
        );
        let ghost before = out.deep_view();
        let examples = &pages[i].code_examples;
        let mut j: usize = 0;
        while j < examples.len()
            invariant
                j <= examples.len(),
                chunk == pages@[i as int].code_examples@.map_values(|c: CodeExample| c.language@),
                examples == &pages@[i as int].code_examples,
                out.deep_view() == before + chunk.take(j as int),
            decreases examples.len() - j,
        {
            let ghost old_out = out.deep_view();
            out.push(examples[j].language.clone());
            proof {
                assert(chunk[j as int] == examples@[j as int].language@);
                assert(out.deep_view() =~= old_out.push(chunk[j as int]));
                assert(before + chunk.take(j as int + 1) =~= (before + chunk.take(j as int)).push(
                    chunk[j as int],
                ));
            }
            j = j + 1;
        }
        proof {
            assert(chunk.take(examples.len() as int) =~= chunk);
            assert((before + chunk) + langs_flat(pages@.skip(i as int + 1)) =~= before + (chunk
                + langs_flat(pages@.skip(i as int + 1))));
        }
        i = i + 1;
    }
    proof {
        assert(pages@.skip(pages.len() as int) =~= Seq::<DocumentationPage>::empty());
        assert(out.deep_view() + Seq::<Seq<char>>::empty() =~= out.deep_view());
    }
    out
}

fn flat_methods(pages: &Vec<DocumentationPage>) -> (r: Vec<String>)
    ensures
        r.deep_view() == methods_flat(pages@),
{
    let mut out: Vec<String> = Vec::new();
    let mut i: usize = 0;
    proof {
        assert(pages@.skip(0) =~= pages@);
        assert(out.deep_view() + methods_flat(pages@) =~= methods_flat(pages@));
    }
    while i < pages.len()
        invariant
            i <= pages.len(),
            out.deep_view() + methods_flat(pages@.skip(i as int)) == methods_flat(pages@),
        decreases pages.len() - i,
    {
        proof {
            assert(pages@.skip(i as int)[0] == pages@[i as int]);
            assert(pages@.skip(i as int).drop_first() =~= pages@.skip(i as int + 1));
        }
        let ghost chunk = pages@[i as int].api_endpoints@.map_values(
            |e: ApiEndpoint| e.method@,
        );
        let ghost before = out.deep_view();
        let endpoints = &pages[i].api_endpoints;
        let mut j: usize = 0;
        while j < endpoints.len()
            invariant
                j <= endpoints.len(),
                chunk == pages@[i as int].api_endpoints@.map_values(|e: ApiEndpoint| e.method@),
                endpoints == &pages@[i as int].api_endpoints,
                out.deep_view() == before + chunk.take(j as int),
            decreases endpoints.len() - j,
        {
            let ghost old_out = out.deep_view();
            out.push(endpoints[j].method.clone());
            proof {
                assert(chunk[j as int] == endpoints@[j as int].method@);
                assert(out.deep_view() =~= old_out.push(chunk[j as int]));
                assert(before + chunk.take(j as int + 1) =~= (before + chunk.take(j as int)).push(
                    chunk[j as int],
                ));
            }
            j = j + 1;
        }
        proof {
            assert(chunk.take(endpoints.len() as int) =~= chunk);
            assert((before + chunk) + methods_flat(pages@.skip(i as int + 1)) =~= before + (chunk
                + methods_flat(pages@.skip(i as int + 1))));
        }
        i = i + 1;
    }
    proof {
        assert(pages@.skip(pages.len() as int) =~= Seq::<DocumentationPage>::empty());
        assert(out.deep_view() + Seq::<Seq<char>>::empty() =~= out.deep_view());
    }
    out
}

fn sum_content_lens(pages: &Vec<DocumentationPage>) -> (r: u128)
    ensures
        r == content_len_sum(pages@),
{
    let mut c: u128 = 0;
    let mut i: usize = 0;
    proof {
        assert(pages@.skip(0) =~= pages@);
    }
    while i < pages.len()
        invariant
            i <= pages.len(),
            c <= (i as u128) * 0xffff_ffff_ffff_ffffu128,
            c + content_len_sum(pages@.skip(i as int)) == content_len_sum(pages@),
        decreases pages.len() - i,
    {
        proof {
            assert(pages@.skip(i as int)[0] == pages@[i as int]);
            assert(pages@.skip(i as int).drop_first() =~= pages@.skip(i as int + 1));
        }
        let cs = crate::text::chars_of(pages[i].content.as_str());
        let l = cs.len();
        proof {
            let m: u128 = 0xffff_ffff_ffff_ffffu128;
            assert(l as u128 <= m);
            assert((i as u128) < 0x1_0000_0000_0000_0000u128);
            assert(c + l as u128 <= ((i as u128) + 1) * m) by (nonlinear_arith)
                requires
                    c <= (i as u128) * m,
                    l as u128 <= m,
            ;
            assert(((i as u128) + 1) * m < 0xffff_ffff_ffff_ffff_ffff_ffff_ffff_ffffu128 + 1)
                by (nonlinear_arith)
                requires
                    (i as u128) < 0x1_0000_0000_0000_0000u128,
                    m == 0xffff_ffff_ffff_ffffu128,
            ;
        }
        c = c + (l as u128);
        i = i + 1;
    }
    proof {
        assert(pages@.skip(pages.len() as int) =~= Seq::<DocumentationPage>::empty());
    }
    c
}

/// The default file name a report is saved under: the platform key and
/// the run's timestamp, between a fixed prefix and extension.
pub open spec fn default_filename_spec(platform: Seq<char>, timestamp: u64) -> Seq<char> {
    "documentation_scrape_"@ + platform + "_"@ + crate::text::dec_of(timestamp as int) + ".json"@
}

/// Builds the default report file name for a platform and a timestamp.
pub fn default_results_filename(platform: &str, timestamp: u64) -> (r: String)
    ensures
        r@ == default_filename_spec(platform@, timestamp),
{
    let mut out = String::from_str("documentation_scrape_");
    out.append(platform);
    out.append("_");
    let ts = crate::text::u64_to_dec(timestamp);
    out.append(ts.as_str());
    out.append(".json");
    proof {
        assert(out@ =~= default_filename_spec(platform@, timestamp));
    }
    out
}

/// Analyzes the collected pages: total page count, per-section and
/// per-tag counts, code-example totals and per-language counts, the
/// endpoint total, and the average content length (integer division).
/// An empty page list yields an empty statistics list, not an error.
pub fn analyze_documentation(pages: &Vec<DocumentationPage>) -> (r: Vec<StatEntry>)
    ensures
        pages.len() == 0 ==> r.len() == 0,
        pages.len() > 0 ==> {
            &&& r.len() == 7
            &&& r@[0].name@ == "total_pages"@
            &&& (r@[0].value matches StatValue::Count(c) && c == pages.len() as u128)
            &&& r@[1].name@ == "sections"@
            &&& (r@[1].value matches StatValue::Table(t) && table_props(t@, sections_flat(pages@)))
            &&& r@[2].name@ == "tags"@
            &&& (r@[2].value matches StatValue::Table(t) && table_props(t@, tags_flat(pages@)))
            &&& r@[3].name@ == "total_code_examples"@
            &&& (r@[3].value matches StatValue::Count(c) && c == langs_flat(pages@).len() as u128)
            &&& r@[4].name@ == "programming_languages"@
            &&& (r@[4].value matches StatValue::Table(t) && table_props(t@, langs_flat(pages@)))
            &&& r@[5].name@ == "total_api_endpoints"@
            &&& (r@[5].value matches StatValue::Count(c) && c == methods_flat(pages@).len() as u128)
            &&& r@[6].name@ == "avg_content_length"@
            &&& (r@[6].value matches StatValue::Count(c) && c == content_len_sum(pages@) / (
            pages.len() as int))
        },
{
    let mut out: Vec<StatEntry> = Vec::new();
    if pages.len() == 0 {
        return out;
    }

    out.push(
        StatEntry {
            name: String::from_str("total_pages"),
            value: StatValue::Count(pages.len() as u128),
        },
    );

    let sections = flat_sections(pages);
    out.push(
        StatEntry {
            name: String::from_str("sections"),
            value: StatValue::Table(build_count_table(&sections)),
        },
    );

    let tags = flat_tags(pages);
    out.push(
        StatEntry {
            name: String::from_str("tags"),
            value: StatValue::Table(build_count_table(&tags)),
        },
    );

    let langs = flat_langs(pages);
    out.push(
        StatEntry {
            name: String::from_str("total_code_examples"),
            value: StatValue::Count(langs.len() as u128),
        },
    );
    out.push(
        StatEntry {
            name: String::from_str("programming_languages"),
            value: StatValue::Table(build_count_table(&langs)),
        },
    );

    let methods = flat_methods(pages);
    out.push(
        StatEntry {
            name: String::from_str("total_api_endpoints"),
            value: StatValue::Count(methods.len() as u128),
        },
    );

    let total_len = sum_content_lens(pages);
    proof {
        assert(content_len_sum(pages@) >= 0);
    }
    let avg = total_len / (pages.len() as u128);
    out.push(
        StatEntry { name: String::from_str("avg_content_length"), value: StatValue::Count(avg) },
    );

    out
}

} // verus!
